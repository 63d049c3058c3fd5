use vstd::prelude::*;

verus! {

/// A command read from the local command-line front end.
///
/// The two commands are recognised purely by equality against the literal
/// tokens below; there is no structured decode.
#[derive(Clone, Copy, PartialEq, Eq, Structural, Debug)]
pub enum StdinHeader {
    LIST,
    GET,
}

/// Token of the get command.
pub open spec fn stdin_get_token() -> Seq<char> {
    seq!['g', 'e', 't']
}

/// Token of the list command.
pub open spec fn stdin_list_token() -> Seq<char> {
    seq!['l', 'i', 's', 't']
}

impl StdinHeader {
    /// Canonical token that callers compare against to recognise the get
    /// command.
    pub fn get() -> (r: &'static str)
        ensures
            r@ == stdin_get_token(),
    {
        let r = "get";
        proof {
            reveal_strlit("get");
            assert(r@ =~= stdin_get_token());
        }
        r
    }

    /// Canonical token that callers compare against to recognise the list
    /// command.
    pub fn list() -> (r: &'static str)
        ensures
            r@ == stdin_list_token(),
    {
        let r = "list";
        proof {
            reveal_strlit("list");
            assert(r@ =~= stdin_list_token());
        }
        r
    }
}

} // verus!
