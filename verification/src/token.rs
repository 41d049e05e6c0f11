//! Instruction tokens: a mnemonic followed by its parameters.

use vstd::prelude::*;
use vstd::string::*;

verus! {

/// The text of a token: its parts joined by dots.
pub open spec fn token_text(parts: Seq<Seq<char>>) -> Seq<char>
    decreases parts.len(),
{
    if parts.len() == 0 {
        Seq::empty()
    } else if parts.len() == 1 {
        parts[0]
    } else {
        token_text(parts.drop_last()) + seq!['.'] + parts.last()
    }
}

/// One instruction of the source text, split into parts. Part 0 is the mnemonic, the
/// parts after it are the parameters. A token always has a mnemonic.
#[derive(Debug, PartialEq, Eq)]
pub struct Token {
    parts: Vec<String>,
}

impl View for Token {
    type V = Seq<Seq<char>>;

    closed spec fn view(&self) -> Seq<Seq<char>> {
        self.parts.deep_view()
    }
}

impl Token {
    #[verifier::type_invariant]
    spec fn has_mnemonic(self) -> bool {
        self.parts@.len() >= 1
    }

    /// A token of the given parts, or `None` when there is no part at all.
    pub fn new(parts: Vec<String>) -> (r: Option<Token>)
        ensures
            r is Some <==> parts@.len() >= 1,
            r matches Some(token) ==> token@ == parts.deep_view(),
    {
        if parts.len() == 0 {
            None
        } else {
            Some(Token { parts })
        }
    }

    /// Number of parts, the mnemonic included.
    pub fn num_parts(&self) -> (n: usize)
        ensures
            n == self@.len(),
            n >= 1,
    {
        proof {
            use_type_invariant(self);
        }
        self.parts.len()
    }

    /// The part at `idx`.
    pub fn part(&self, idx: usize) -> (r: &str)
        requires
            idx < self@.len(),
        ensures
            r@ == self@[idx as int],
    {
        self.parts[idx].as_str()
    }

    /// All parts in order.
    pub fn parts(&self) -> (r: &Vec<String>)
        ensures
            r.deep_view() == self@,
    {
        &self.parts
    }

    /// The token as it is written: its parts joined by dots.
    pub fn to_text(&self) -> (text: String)
        ensures
            text@ == token_text(self@),
    {
        proof {
            use_type_invariant(self);
            reveal_strlit(".");
        }
        let n: usize = self.parts.len();
        let mut text: String = String::from_str(self.parts[0].as_str());
        assert(self@.take(1) =~= seq![self@[0]]);
        let mut i: usize = 1;
        while i < n
            invariant
                n == self@.len(),
                1 <= i <= n,
                text@ == token_text(self@.take(i as int)),
                "."@ == seq!['.'],
            decreases n - i,
        {
            text.append(".");
            text.append(self.parts[i].as_str());
            proof {
                let next = self@.take(i + 1);
                assert(next.drop_last() =~= self@.take(i as int));
                assert(next.last() == self@[i as int]);
            }
            i += 1;
        }
        assert(self@.take(n as int) =~= self@);
        text
    }
}

} // verus!
