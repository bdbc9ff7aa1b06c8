use vstd::prelude::*;

verus! {

/// The token under which the listening socket is registered. No slot index
/// of a pool ever takes this value.
pub const LISTEN_TOKEN: u64 = 0xffff_ffff_ffff_ffff;

/// What a readiness report refers to: the listening socket, or the
/// connection held in one slot of the pool.
#[derive(Clone, Copy, Debug, PartialEq, Eq, Structural)]
pub enum Tag {
    Listener,
    Connection(usize),
}

impl Tag {
    /// The numeric token that the multiplexer carries for this tag.
    pub open spec fn token_spec(self) -> u64 {
        match self {
            Tag::Listener => LISTEN_TOKEN,
            Tag::Connection(i) => i as u64,
        }
    }

    /// The tag that a numeric token stands for, if any.
    pub open spec fn from_token_spec(token: u64) -> Option<Tag> {
        if token == LISTEN_TOKEN {
            Some(Tag::Listener)
        } else if token <= usize::MAX {
            Some(Tag::Connection(token as usize))
        } else {
            None
        }
    }

    /// A tag is valid when its token cannot be mistaken for the listener's.
    pub open spec fn valid(self) -> bool {
        match self {
            Tag::Listener => true,
            Tag::Connection(i) => (i as u64) < LISTEN_TOKEN,
        }
    }

    pub fn to_token(&self) -> (r: u64)
        ensures
            r == self.token_spec(),
    {
        match self {
            Tag::Listener => LISTEN_TOKEN,
            Tag::Connection(i) => *i as u64,
        }
    }

    pub fn from_token(token: u64) -> (r: Option<Tag>)
        ensures
            r == Self::from_token_spec(token),
    {
        if token == LISTEN_TOKEN {
            Some(Tag::Listener)
        } else if token <= usize::MAX as u64 {
            Some(Tag::Connection(token as usize))
        } else {
            None
        }
    }
}

/// Decoding the token of a valid tag gives the tag back.
pub proof fn lemma_token_round_trip(tag: Tag)
    requires
        tag.valid(),
    ensures
        Tag::from_token_spec(tag.token_spec()) == Some(tag),
{
}

/// Distinct valid tags are registered under distinct tokens.
pub proof fn lemma_token_injective(a: Tag, b: Tag)
    requires
        a.valid(),
        b.valid(),
        a.token_spec() == b.token_spec(),
    ensures
        a == b,
{
    lemma_token_round_trip(a);
    lemma_token_round_trip(b);
}

} // verus!
