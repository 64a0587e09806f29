use vstd::prelude::*;

verus! {

/// Whether `s` is a single well-formed mailbox — a plain `user@domain`
/// address or `Display Name <user@domain>` — as lettre's parser decides it;
/// a function of the text alone.
pub uninterp spec fn mailbox_accepted(s: Seq<char>) -> bool;

/// Relies on lettre's `Mailbox::from_str`: it accepts exactly the mailbox
/// strings lettre can parse.
#[verifier::external_body]
pub(crate) fn mailbox_ok(s: &str) -> (r: bool)
    ensures
        r == mailbox_accepted(s@),
{
    match <lettre::message::Mailbox as core::str::FromStr>::from_str(s) {
        Ok(_) => true,
        Err(_) => false,
    }
}

} // verus!
