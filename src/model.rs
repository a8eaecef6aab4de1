//! Emoji: the glyphs of the platform and the custom emoji of each server.

use vstd::prelude::*;

verus! {

/// The character of a decimal digit.
pub open spec fn digit_char(d: nat) -> char {
    seq!['0', '1', '2', '3', '4', '5', '6', '7', '8', '9'][d as int]
}

/// The decimal form of `n`, without sign or leading zeros.
pub open spec fn decimal(n: nat) -> Seq<char>
    decreases n,
{
    if n < 10 {
        seq![digit_char(n)]
    } else {
        decimal(n / 10).push(digit_char(n % 10))
    }
}

/// Relies on `ToString::to_string` over `u64`'s `Display`, which writes the
/// number in decimal digits with no sign or padding.
#[verifier::external_body]
pub(crate) fn decimal_string(n: u64) -> (r: String)
    ensures
        r@ == decimal(n as nat),
{
    n.to_string()
}

/// The text by which a custom emoji named `name` with id `id` appears in a
/// message: `<:name:id>`.
pub open spec fn custom_pattern(name: Seq<char>, id: u64) -> Seq<char> {
    seq!['<', ':'] + name + seq![':'] + decimal(id as nat) + seq!['>']
}

/// An emoji that a server defines.
pub struct CustomEmoji {
    pub server_id: u64,
    pub id: u64,
    pub name: String,
    pub pattern: String,
    pub animated: bool,
}

/// An emoji: a server's custom emoji, or a sequence of Unicode glyphs.
pub enum Emoji {
    Custom(CustomEmoji),
    Unicode(String),
}

impl CustomEmoji {
    /// The pattern is the one that the name and id give.
    pub open spec fn wf(&self) -> bool {
        self.pattern@ == custom_pattern(self.name@, self.id)
    }

    pub fn new(server_id: u64, id: u64, name: String, animated: bool) -> (r: CustomEmoji)
        ensures
            r.server_id == server_id,
            r.id == id,
            r.name@ == name@,
            r.animated == animated,
            r.wf(),
    {
        let mut pattern = String::from_str("<:");
        pattern.append(name.as_str());
        pattern.append(":");
        let digits = decimal_string(id);
        pattern.append(digits.as_str());
        pattern.append(">");
        proof {
            reveal_strlit("<:");
            reveal_strlit(":");
            reveal_strlit(">");
        }
        assert(pattern@ =~= custom_pattern(name@, id));
        CustomEmoji { server_id, id, name, pattern, animated }
    }

    pub fn name(&self) -> (r: &str)
        ensures
            r@ == self.name@,
    {
        self.name.as_str()
    }

    pub fn pattern(&self) -> (r: &str)
        ensures
            r@ == self.pattern@,
    {
        self.pattern.as_str()
    }
}

impl Clone for CustomEmoji {
    fn clone(&self) -> (r: Self)
        ensures
            r == *self,
    {
        CustomEmoji {
            server_id: self.server_id,
            id: self.id,
            name: self.name.clone(),
            pattern: self.pattern.clone(),
            animated: self.animated,
        }
    }
}

impl Clone for Emoji {
    fn clone(&self) -> (r: Self)
        ensures
            r == *self,
    {
        match self {
            Emoji::Custom(e) => Emoji::Custom(e.clone()),
            Emoji::Unicode(g) => Emoji::Unicode(g.clone()),
        }
    }
}

impl Emoji {
    /// The name of a custom emoji, or the glyphs of a Unicode one.
    pub open spec fn name_view(&self) -> Seq<char> {
        match self {
            Emoji::Custom(e) => e.name@,
            Emoji::Unicode(g) => g@,
        }
    }

    /// The text by which the emoji appears in a message.
    pub open spec fn pattern_view(&self) -> Seq<char> {
        match self {
            Emoji::Custom(e) => e.pattern@,
            Emoji::Unicode(g) => g@,
        }
    }

    pub open spec fn wf(&self) -> bool {
        match self {
            Emoji::Custom(e) => e.wf(),
            Emoji::Unicode(_) => true,
        }
    }

    pub fn name(&self) -> (r: &str)
        ensures
            r@ == self.name_view(),
    {
        match self {
            Emoji::Custom(e) => e.name(),
            Emoji::Unicode(g) => g.as_str(),
        }
    }

    pub fn pattern(&self) -> (r: &str)
        ensures
            r@ == self.pattern_view(),
    {
        match self {
            Emoji::Custom(e) => e.pattern(),
            Emoji::Unicode(g) => g.as_str(),
        }
    }
}

} // verus!
