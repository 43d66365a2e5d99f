//! Helpers around the core: the choice of targets and the reading of a yes or no.

use vstd::prelude::*;
use vstd::string::StringSliceAdditionalSpecFns;
use vstd::utf8::{decode_utf8, encode_utf8_decode_utf8, valid_utf8};
use crate::target::AxtcTarget;
use crate::text::{chars_of, strip, trim};

verus! {

/// The name of the file in which the catalogue of themes is kept.
pub const THEME_LIST_FILENAME: &'static str = ".axtc-theme-list.json";

/// The error with which `core::str::from_utf8` refuses bytes.
#[verifier::external_type_specification]
#[verifier::external_body]
pub struct ExUtf8Error(core::str::Utf8Error);

/// `core::str::from_utf8` takes the bytes exactly where they are valid UTF-8,
/// and the string that it returns is made of those bytes.
pub assume_specification[ core::str::from_utf8 ](v: &[u8]) -> (r: Result<
    &str,
    core::str::Utf8Error,
>)
    ensures
        r is Ok <==> valid_utf8(v@),
        r matches Ok(s) ==> s.spec_bytes() == v@,
;

/// The targets whose rule holds, in the order of the list.
pub open spec fn chosen(rules: Seq<(bool, AxtcTarget)>) -> Seq<AxtcTarget>
    decreases rules.len(),
{
    if rules.len() == 0 {
        Seq::<AxtcTarget>::empty()
    } else if rules.last().0 {
        chosen(rules.drop_last()).push(rules.last().1)
    } else {
        chosen(rules.drop_last())
    }
}

/// Initialize the target vector by accepting a set of rules and their associated
/// targets: a target is taken where its rule holds, in the order given.
pub fn init_targets(rules: Vec<(bool, AxtcTarget)>) -> (targets: Vec<AxtcTarget>)
    ensures
        targets@ == chosen(rules@),
{
    let mut targets: Vec<AxtcTarget> = Vec::new();
    let ghost all = rules@;
    for pair in it: rules
        invariant
            it.seq() == all,
            targets@ == chosen(all.take(it.index() as int)),
    {
        assert(all.take(it.index() + 1).drop_last() == all.take(it.index() as int));
        let (rule, target) = pair;
        if rule {
            targets.push(target);
        }
    }
    assert(all.take(all.len() as int) == all);
    targets
}

/// The targets of a run: those that were chosen, or, where none was chosen, all
/// the known ones.
pub fn or_all_known(chosen: Vec<AxtcTarget>, known: Vec<AxtcTarget>) -> (targets: Vec<AxtcTarget>)
    ensures
        targets@ == if chosen@.len() == 0 {
            known@
        } else {
            chosen@
        },
{
    if chosen.len() == 0 {
        known
    } else {
        chosen
    }
}

/// Why an answer is not taken.
#[derive(Debug, Clone, Copy, PartialEq, Eq)]
pub enum ConfirmError {
    /// The input is not valid UTF-8.
    InvalidData,
    /// The input is neither a yes nor a no.
    InvalidInput,
}

/// What an answer says: yes for `y`, no for `n`, in either case and with any
/// whitespace around it; nothing for any other text.
pub open spec fn answer_of(text: Seq<char>) -> Option<bool> {
    let word = strip(text);
    if word == seq!['y'] || word == seq!['Y'] {
        Some(true)
    } else if word == seq!['n'] || word == seq!['N'] {
        Some(false)
    } else {
        None
    }
}

/// What the bytes of an answer say.
pub open spec fn confirmation(input: Seq<u8>) -> Result<bool, ConfirmError> {
    if !valid_utf8(input) {
        Err(ConfirmError::InvalidData)
    } else {
        match answer_of(decode_utf8(input)) {
            Some(yes) => Ok(yes),
            None => Err(ConfirmError::InvalidInput),
        }
    }
}

/// What the text of an answer says.
pub fn answer(text: &str) -> (said: Option<bool>)
    ensures
        said == answer_of(text@),
{
    let word = trim(&chars_of(text));
    if word.len() != 1 {
        return None;
    }
    let c = word[0];
    assert(word@ == seq![c]);
    if c == 'y' || c == 'Y' {
        Some(true)
    } else if c == 'n' || c == 'N' {
        Some(false)
    } else {
        None
    }
}

/// Reads the user's answer from all that was typed.
pub fn read_user_confirm(input: &[u8]) -> (r: Result<bool, ConfirmError>)
    ensures
        r == confirmation(input@),
{
    match core::str::from_utf8(input) {
        Err(_) => Err(ConfirmError::InvalidData),
        Ok(text) => {
            proof {
                encode_utf8_decode_utf8(text@);
            }
            match answer(text) {
                Some(yes) => Ok(yes),
                None => Err(ConfirmError::InvalidInput),
            }
        },
    }
}

} // verus!
