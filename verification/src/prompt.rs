//! Tiny interactive helpers for the one-shot subcommands (udev/service).

use vstd::prelude::*;

use crate::text;

verus! {

/// Whether an answer agrees.
pub open spec fn agrees(answer: Seq<char>) -> bool {
    let a = text::trimmed(answer);
    a == "y"@ || a == "Y"@ || a == "yes"@ || a == "Yes"@
}

/// Whether to overwrite an existing file, given what was answered. A
/// non-interactive stdin (EOF, no answer) is treated as "no": fail safe.
pub fn confirm_overwrite(answer: Option<&str>) -> (r: bool)
    ensures
        r == (answer is Some && agrees(answer->0@)),
{
    match answer {
        Some(line) => {
            let a = text::trim(&text::chars(line));
            text::same(&a, "y") || text::same(&a, "Y") || text::same(&a, "yes") || text::same(
                &a,
                "Yes",
            )
        },
        None => false,
    }
}

/// The answers that agree are the four ways to write yes, blanks around them aside.
pub proof fn yes_agrees(answer: Seq<char>)
    ensures
        agrees(answer) <==> {
            let a = text::trimmed(answer);
            a == seq!['y'] || a == seq!['Y'] || a == seq!['y', 'e', 's'] || a == seq![
                'Y',
                'e',
                's',
            ]
        },
{
    reveal_strlit("y");
    reveal_strlit("Y");
    reveal_strlit("yes");
    reveal_strlit("Yes");
    assert("y"@ =~= seq!['y']);
    assert("Y"@ =~= seq!['Y']);
    assert("yes"@ =~= seq!['y', 'e', 's']);
    assert("Yes"@ =~= seq!['Y', 'e', 's']);
}

} // verus!
