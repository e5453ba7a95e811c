//! What is reported of a captured selection.

use crate::number::{decimal, push_decimal};
use crate::text::{blank, is_blank, text_or_empty, text_result, white_space};
use vstd::prelude::*;
use vstd::string::*;

verus! {

/// The characters of each of some strings.
pub open spec fn lines(strings: Seq<String>) -> Seq<Seq<char>> {
    Seq::new(strings.len(), |i: int| strings[i]@)
}

/// The line above and below a report.
pub open spec fn separator() -> Seq<char> {
    "--------------------------------------------------"@
}

/// The lines that report a text that was captured after the button had been
/// held for some milliseconds.
pub open spec fn report(duration_ms: u64, text: Seq<char>) -> Seq<Seq<char>> {
    seq![
        separator(),
        "检测到长按/拖拽 ("@ + decimal(duration_ms as nat) + "ms) 结束，捕获文本:"@,
        ">>> "@ + text,
        separator(),
    ]
}

/// The lines to print after a selection was looked for: a report of the text
/// where there is one that is not blank, and nothing otherwise.
pub fn perform_uia_detection<E>(duration_ms: u64, found: Result<String, E>) -> (printed: Vec<
    String,
>)
    ensures
        lines(printed@) == (if blank(text_or_empty(text_result(found))) {
            Seq::empty()
        } else {
            report(duration_ms, text_or_empty(text_result(found)))
        }),
{
    let mut printed: Vec<String> = Vec::new();
    if let Ok(text) = found {
        if !is_blank(text.as_str()) {
            let mut heading = "检测到长按/拖拽 (".to_owned();
            push_decimal(&mut heading, duration_ms);
            heading.append("ms) 结束，捕获文本:");
            let mut quoted = ">>> ".to_owned();
            quoted.append(text.as_str());
            printed.push("--------------------------------------------------".to_owned());
            printed.push(heading);
            printed.push(quoted);
            printed.push("--------------------------------------------------".to_owned());
            assert(lines(printed@) =~= report(duration_ms, text@));
            return printed;
        }
    }
    assert(lines(printed@) =~= Seq::empty());
    printed
}

/// What is printed of whatever was found. A text with a character in it that
/// is no white space is reported in four lines: a rule, the duration of the
/// press, the whole text behind a mark, and the rule again. Of any other text,
/// and of an error, nothing is printed.
pub proof fn law_reports_show_the_whole_text<E>(
    duration_ms: u64,
    found: Result<String, E>,
    printed: Vec<String>,
)
    requires
        call_ensures(perform_uia_detection::<E>, (duration_ms, found), printed),
    ensures
        match found {
            Ok(text) => if exists|i: int| 0 <= i < text@.len() && !white_space(#[trigger] text@[i]) {
                &&& printed@.len() == 4
                &&& printed@[0]@.len() == 50
                &&& forall|i: int| 0 <= i < 50 ==> #[trigger] printed@[0]@[i] == '-'
                &&& printed@[1]@ == "检测到长按/拖拽 ("@ + decimal(duration_ms as nat)
                    + "ms) 结束，捕获文本:"@
                &&& printed@[2]@.len() == 4 + text@.len()
                &&& printed@[2]@.take(4) == seq!['>', '>', '>', ' ']
                &&& printed@[2]@.skip(4) == text@
                &&& printed@[3]@ == printed@[0]@
            } else {
                printed@.len() == 0
            },
            Err(_) => printed@.len() == 0,
        },
{
    reveal_strlit("--------------------------------------------------");
    reveal_strlit(">>> ");
    let shown = lines(printed@);
    assert(shown.len() == printed@.len());
    if let Ok(text) = found {
        if exists|i: int| 0 <= i < text@.len() && !white_space(#[trigger] text@[i]) {
            assert(!blank(text@));
            assert(shown[0] == printed@[0]@);
            assert(shown[1] == printed@[1]@);
            assert(shown[2] == printed@[2]@);
            assert(shown[3] == printed@[3]@);
            assert(printed@[2]@.take(4) =~= seq!['>', '>', '>', ' ']);
            assert(printed@[2]@.skip(4) =~= text@);
        } else {
            assert(blank(text@));
        }
    }
}

} // verus!
