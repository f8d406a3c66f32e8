//! The parts of a line prompt that compute: the text of the question, the
//! line without its ending, and the reading of a yes-or-no answer.
//!
//! Writing the prompt and reading the line are left to the caller.

use crate::text::{chars_of, push_char};
use vstd::prelude::*;

verus! {

/// Whether `c` ends a line: a line feed or a carriage return.
pub open spec fn is_line_ending(c: char) -> bool {
    c == '\n' || c == '\r'
}

/// `line` without the line feeds and carriage returns at its end.
pub open spec fn without_line_ending(line: Seq<char>) -> Seq<char>
    decreases line.len(),
{
    if line.len() > 0 && is_line_ending(line.last()) {
        without_line_ending(line.drop_last())
    } else {
        line
    }
}

/// The lower-case form of an ASCII capital letter; any other character
/// itself.
pub open spec fn ascii_lower(c: char) -> char {
    if 'A' <= c <= 'Z' {
        (c as u32 + 32) as char
    } else {
        c
    }
}

/// `text` with each ASCII capital letter in lower case.
pub open spec fn lowercase(text: Seq<char>) -> Seq<char> {
    Seq::new(text.len(), |i: int| ascii_lower(text[i]))
}

/// What a response to a yes-or-no question says, whatever the case of its
/// letters: yes for `y` and `yes`, no for `n` and `no`, and nothing for
/// any other response.
pub open spec fn answer(response: Seq<char>) -> Option<bool> {
    let lowered = lowercase(response);
    if lowered == "y"@ || lowered == "yes"@ {
        Some(true)
    } else if lowered == "n"@ || lowered == "no"@ {
        Some(false)
    } else {
        None
    }
}

/// The answer that a run of responses leads to: that of the first
/// response that says yes or no. `None` if none of them does.
pub open spec fn first_answer(responses: Seq<Seq<char>>) -> Option<bool>
    decreases responses.len(),
{
    if responses.len() == 0 {
        None
    } else if answer(responses[0]) is Some {
        answer(responses[0])
    } else {
        first_answer(responses.drop_first())
    }
}

/// The character sequences of a vector of strings.
pub open spec fn texts(strings: Seq<String>) -> Seq<Seq<char>> {
    Seq::new(strings.len(), |i: int| strings[i]@)
}

/// The line that was read, without the line feeds and carriage returns at
/// its end.
pub fn strip_line_ending(line: &str) -> (stripped: String)
    ensures
        stripped@ == without_line_ending(line@),
{
    let chars = chars_of(line);
    let mut end: usize = chars.len();
    assert(chars@.take(end as int) =~= chars@);
    while end > 0 && (chars[end - 1] == '\n' || chars[end - 1] == '\r')
        invariant
            end <= chars.len(),
            without_line_ending(chars@) == without_line_ending(chars@.take(end as int)),
        decreases end,
    {
        proof {
            assert(chars@.take(end as int).drop_last() =~= chars@.take(end - 1));
        }
        end -= 1;
    }
    let mut stripped = String::new();
    let mut i: usize = 0;
    while i < end
        invariant
            i <= end <= chars.len(),
            stripped@ == chars@.take(i as int),
        decreases end - i,
    {
        push_char(&mut stripped, chars[i]);
        i += 1;
    }
    stripped
}

/// The prompt of a yes-or-no question: the question, then ` (Y or N): `.
pub fn confirm_prompt(question: &str) -> (prompt: String)
    ensures
        prompt@ == question@ + " (Y or N): "@,
{
    let mut prompt = String::from_str(question);
    prompt.append(" (Y or N): ");
    prompt
}

/// Whether `c` is the lower-case letter `letter` or its capital.
fn is_letter(c: char, letter: char) -> (same: bool)
    requires
        'a' <= letter <= 'z',
    ensures
        same == (ascii_lower(c) == letter),
{
    c == letter || c as u32 + 32 == letter as u32
}

/// Reads a response to a yes-or-no question. `None` stands for a
/// response that says neither, after which the question is asked again.
pub fn parse_confirmation(response: &str) -> (said: Option<bool>)
    ensures
        said == answer(response@),
{
    let chars = chars_of(response);
    proof {
        reveal_strlit("y");
        reveal_strlit("yes");
        reveal_strlit("n");
        reveal_strlit("no");
    }
    let ghost lowered = lowercase(response@);
    assert("y"@.len() == 1 && "n"@.len() == 1 && "no"@.len() == 2 && "yes"@.len() == 3);
    if chars.len() == 1 {
        if is_letter(chars[0], 'y') {
            assert(lowered =~= "y"@);
            Some(true)
        } else if is_letter(chars[0], 'n') {
            assert(lowered =~= "n"@);
            Some(false)
        } else {
            assert(lowered[0] != "y"@[0] && lowered[0] != "n"@[0]);
            None
        }
    } else if chars.len() == 2 {
        if is_letter(chars[0], 'n') && is_letter(chars[1], 'o') {
            assert(lowered =~= "no"@);
            Some(false)
        } else {
            assert(lowered[0] != "no"@[0] || lowered[1] != "no"@[1]);
            None
        }
    } else if chars.len() == 3 {
        if is_letter(chars[0], 'y') && is_letter(chars[1], 'e') && is_letter(chars[2], 's') {
            assert(lowered =~= "yes"@);
            Some(true)
        } else {
            assert(lowered[0] != "yes"@[0] || lowered[1] != "yes"@[1] || lowered[2] != "yes"@[2]);
            None
        }
    } else {
        None
    }
}

/// Answers a yes-or-no question from the responses that were given to it,
/// in their order: each response that says neither yes nor no is passed
/// over, and the first that says one of them decides. `None` if the
/// responses run out before that.
pub fn confirm_from(responses: &Vec<String>) -> (said: Option<bool>)
    ensures
        said == first_answer(texts(responses@)),
{
    let mut i: usize = 0;
    assert(texts(responses@).skip(0) =~= texts(responses@));
    while i < responses.len()
        invariant
            i <= responses.len(),
            first_answer(texts(responses@)) == first_answer(texts(responses@).skip(i as int)),
        decreases responses.len() - i,
    {
        let said = parse_confirmation(responses[i].as_str());
        proof {
            let rest = texts(responses@).skip(i as int);
            assert(rest.drop_first() =~= texts(responses@).skip(i + 1));
        }
        if said.is_some() {
            return said;
        }
        i += 1;
    }
    None
}

/// What is left of a line without its ending is the start of the line,
/// does not end in a line feed or a carriage return, and is followed in the
/// line by nothing but those.
pub proof fn lemma_without_line_ending(line: Seq<char>)
    ensures
        without_line_ending(line).len() <= line.len(),
        without_line_ending(line) == line.take(without_line_ending(line).len() as int),
        without_line_ending(line).len() > 0 ==> !is_line_ending(without_line_ending(line).last()),
        forall|k: int|
            without_line_ending(line).len() <= k < line.len() ==> is_line_ending(line[k]),
    decreases line.len(),
{
    if line.len() > 0 && is_line_ending(line.last()) {
        let shorter = line.drop_last();
        lemma_without_line_ending(shorter);
        let kept = without_line_ending(shorter).len() as int;
        assert forall|k: int| kept <= k < line.len() implies is_line_ending(line[k]) by {
            if k < shorter.len() {
                assert(shorter[k] == line[k]);
            }
        }
    }
}

/// The case of its letters does not change what a response says.
pub proof fn lemma_answer_ignores_case(response: Seq<char>)
    ensures
        answer(lowercase(response)) == answer(response),
{
    assert(lowercase(lowercase(response)) =~= lowercase(response));
}

/// Responses that say neither yes nor no do not change the answer that
/// follows them.
pub proof fn lemma_unrecognized_are_passed_over(passed: Seq<Seq<char>>, rest: Seq<Seq<char>>)
    requires
        forall|i: int| 0 <= i < passed.len() ==> answer(passed[i]) is None,
    ensures
        first_answer(passed + rest) == first_answer(rest),
    decreases passed.len(),
{
    if passed.len() > 0 {
        assert((passed + rest).drop_first() =~= passed.drop_first() + rest);
        lemma_unrecognized_are_passed_over(passed.drop_first(), rest);
    }
}

} // verus!
