use vstd::prelude::*;
use vstd::string::*;

use crate::domain::tasks::Status;
use crate::domain::text::push_char;

verus! {

/// Whether a character is ASCII.
pub open spec fn is_ascii_char(c: char) -> bool {
    (c as u32) < 128
}

/// Whether every character of a text is ASCII.
pub open spec fn ascii_text(s: Seq<char>) -> bool {
    forall|i: int| 0 <= i < s.len() ==> #[trigger] is_ascii_char(s[i])
}

/// An ASCII uppercase letter made lowercase; every other character kept.
pub open spec fn ascii_lower(c: char) -> char {
    if 65 <= (c as u32) <= 90 {
        ((c as u32) + 32) as char
    } else {
        c
    }
}

/// Whether a character is an ASCII letter or digit.
pub open spec fn ascii_alphanumeric(c: char) -> bool {
    let n = c as u32;
    (48 <= n <= 57) || (65 <= n <= 90) || (97 <= n <= 122)
}

/// A text with each ASCII uppercase letter made lowercase.
pub open spec fn ascii_lowercase(s: Seq<char>) -> Seq<char> {
    s.map_values(|c: char| ascii_lower(c))
}

/// What `str::to_lowercase` returns for a text that holds a character
/// outside ASCII (the Unicode lowercase mapping, which may depend on the
/// neighbours of a character).
pub uninterp spec fn unicode_lowercase_of(s: Seq<char>) -> Seq<char>;

/// What `str::to_lowercase` returns for a text: on an ASCII text, each
/// uppercase letter made lowercase and every other character kept (the
/// Unicode lowercase mapping of ASCII); otherwise `unicode_lowercase_of`.
pub open spec fn lowercase_of(s: Seq<char>) -> Seq<char> {
    if ascii_text(s) {
        ascii_lowercase(s)
    } else {
        unicode_lowercase_of(s)
    }
}

/// Whether `char::is_alphanumeric` holds of a character outside ASCII
/// (Unicode `Alphabetic` or `Numeric`).
pub uninterp spec fn unicode_alphanumeric(c: char) -> bool;

/// Whether `char::is_alphanumeric` holds of a character: for ASCII, exactly
/// the digits and the letters (the ASCII characters that are Unicode
/// `Alphabetic` or `Numeric`); otherwise `unicode_alphanumeric`.
pub open spec fn is_alphanumeric_char(c: char) -> bool {
    if is_ascii_char(c) {
        ascii_alphanumeric(c)
    } else {
        unicode_alphanumeric(c)
    }
}

/// Calls `str::to_lowercase`. Trusted: on an ASCII text it makes each
/// uppercase letter lowercase and keeps every other character; on any other
/// text its result is a function of the text alone, named
/// `unicode_lowercase_of`.
#[verifier::external_body]
fn lowercase(s: &str) -> (r: String)
    ensures
        r@ == if ascii_text(s@) {
            ascii_lowercase(s@)
        } else {
            unicode_lowercase_of(s@)
        },
{
    s.to_lowercase()
}

/// Calls `char::is_alphanumeric`. Trusted: on an ASCII character it holds
/// exactly of the digits and letters; on any other character its result is a
/// function of the character alone, named `unicode_alphanumeric`.
#[verifier::external_body]
fn is_alphanumeric(c: char) -> (r: bool)
    ensures
        r == if is_ascii_char(c) {
            ascii_alphanumeric(c)
        } else {
            unicode_alphanumeric(c)
        },
{
    c.is_alphanumeric()
}

/// The letters and digits of a text, in order.
pub open spec fn keep_alphanumeric(s: Seq<char>) -> Seq<char> {
    s.filter(|c: char| is_alphanumeric_char(c))
}

/// The form in which a status is recognised: lowercased, with everything
/// but letters and digits left out.
pub open spec fn normalized(input: Seq<char>) -> Seq<char> {
    keep_alphanumeric(lowercase_of(input))
}

/// The status that a normalized text names, if any.
pub open spec fn status_named(n: Seq<char>) -> Option<Status> {
    if n == "todo"@ {
        Some(Status::Todo)
    } else if n == "inprogress"@ {
        Some(Status::InProgress)
    } else if n == "done"@ {
        Some(Status::Done)
    } else {
        None
    }
}

/// The message of a refused status.
pub open spec fn invalid_status_message(input: Seq<char>) -> Seq<char> {
    "Invalid status: '"@ + input + "'. Valid options are: todo, in-progress, done"@
}

/// What `parse_status` gives for a text.
pub open spec fn parsed_status(input: Seq<char>) -> Result<Status, Seq<char>> {
    match status_named(normalized(input)) {
        Some(s) => Ok(s),
        None => Err(invalid_status_message(input)),
    }
}

/// Keeps the letters and digits of a text.
pub fn keep_letters_and_digits(s: &str) -> (r: String)
    ensures
        r@ == keep_alphanumeric(s@),
{
    let n = s.unicode_len();
    let mut out = String::new();
    let mut i: usize = 0;
    while i < n
        invariant
            n == s@.len(),
            i <= n,
            out@ == keep_alphanumeric(s@.take(i as int)),
        decreases n - i,
    {
        let c = s.get_char(i);
        proof {
            assert(s@.take(i + 1).drop_last() == s@.take(i as int));
            assert(s@.take(i + 1).last() == c);
            reveal_with_fuel(Seq::<_>::filter, 1);
        }
        if is_alphanumeric(c) {
            push_char(&mut out, c);
        }
        i = i + 1;
    }
    assert(s@.take(n as int) == s@);
    out
}

/// Brings a status text to its normalized form.
pub fn normalize_status(input: &str) -> (r: String)
    ensures
        r@ == normalized(input@),
{
    let lowered = lowercase(input);
    keep_letters_and_digits(lowered.as_str())
}

/// The status that a normalized text names: `todo`, `inprogress` or `done`.
pub fn status_from_normalized(n: &str) -> (r: Option<Status>)
    ensures
        r == status_named(n@),
{
    let text = String::from_str(n);
    if text == String::from_str("todo") {
        Some(Status::Todo)
    } else if text == String::from_str("inprogress") {
        Some(Status::InProgress)
    } else if text == String::from_str("done") {
        Some(Status::Done)
    } else {
        None
    }
}

/// Reads a status, ignoring case and everything but letters and digits,
/// so that "To Do", "IN-PROGRESS" and "done" are all accepted.
pub fn parse_status(input: &str) -> (r: Result<Status, String>)
    ensures
        r matches Ok(s) ==> parsed_status(input@) == Ok::<Status, Seq<char>>(s),
        r matches Err(m) ==> parsed_status(input@) == Err::<Status, Seq<char>>(m@),
{
    let normalized = normalize_status(input);
    match status_from_normalized(normalized.as_str()) {
        Some(s) => Ok(s),
        None => {
            let mut message = String::from_str("Invalid status: '");
            message.append(input);
            message.append("'. Valid options are: todo, in-progress, done");
            Err(message)
        },
    }
}

} // verus!

verus! {

/// Whether a status is accepted depends only on its normalized form: two
/// texts that differ only in case or in characters other than letters and
/// digits are read alike.
pub proof fn law_status_read_by_normalized_form(a: Seq<char>, b: Seq<char>)
    requires
        normalized(a) == normalized(b),
    ensures
        parsed_status(a) is Ok <==> parsed_status(b) is Ok,
        parsed_status(a) is Ok ==> parsed_status(a) == parsed_status(b),
{
}

/// Every text is either read as exactly one status or refused with the
/// message that quotes it.
pub proof fn law_status_read_or_refused(input: Seq<char>)
    ensures
        parsed_status(input) is Ok <==> status_named(normalized(input)) is Some,
        parsed_status(input) is Err ==> parsed_status(input) == Err::<Status, Seq<char>>(
            invalid_status_message(input),
        ),
{
}

} // verus!

verus! {

/// Where two predicates agree on every element, they keep the same elements.
proof fn lemma_filter_agree(s: Seq<char>, p: spec_fn(char) -> bool, q: spec_fn(char) -> bool)
    requires
        forall|i: int| 0 <= i < s.len() ==> p(#[trigger] s[i]) == q(s[i]),
    ensures
        s.filter(p) == s.filter(q),
    decreases s.len(),
{
    reveal_with_fuel(Seq::<_>::filter, 1);
    if s.len() > 0 {
        let d = s.drop_last();
        assert forall|i: int| 0 <= i < d.len() implies p(#[trigger] d[i]) == q(d[i]) by {
            assert(d[i] == s[i]);
        }
        lemma_filter_agree(d, p, q);
        assert(p(s[s.len() - 1]) == q(s[s.len() - 1]));
    }
}

/// The form of an ASCII text that decides how it is read: its letters made
/// lowercase and its digits, in order, everything else left out.
pub open spec fn ascii_key(s: Seq<char>) -> Seq<char> {
    ascii_lowercase(s).filter(|c: char| ascii_alphanumeric(c))
}

/// On an ASCII text the normalized form is its ASCII key.
pub proof fn lemma_ascii_normalized(s: Seq<char>)
    requires
        ascii_text(s),
    ensures
        normalized(s) == ascii_key(s),
{
    let l = ascii_lowercase(s);
    assert forall|i: int| 0 <= i < l.len() implies (|c: char| is_alphanumeric_char(c))(#[trigger] l[i])
        == (|c: char| ascii_alphanumeric(c))(l[i]) by {
        assert(is_ascii_char(s[i]));
        assert(l[i] == ascii_lower(s[i]));
    }
    lemma_filter_agree(l, |c: char| is_alphanumeric_char(c), |c: char| ascii_alphanumeric(c));
}

/// Two ASCII texts with the same letters, ignoring case, and the same digits,
/// in the same order, are read alike, whatever else they hold.
pub proof fn law_status_ignores_ascii_case_and_separators(a: Seq<char>, b: Seq<char>)
    requires
        ascii_text(a),
        ascii_text(b),
        ascii_key(a) == ascii_key(b),
    ensures
        parsed_status(a) is Ok <==> parsed_status(b) is Ok,
        parsed_status(a) is Ok ==> parsed_status(a) == parsed_status(b),
{
    lemma_ascii_normalized(a);
    lemma_ascii_normalized(b);
    law_status_read_by_normalized_form(a, b);
}

/// Changing the case of letters in an ASCII text does not change how it is read.
pub proof fn law_ascii_case_change_keeps_reading(a: Seq<char>, b: Seq<char>)
    requires
        ascii_text(a),
        ascii_text(b),
        a.len() == b.len(),
        forall|i: int| 0 <= i < a.len() ==> ascii_lower(#[trigger] a[i]) == ascii_lower(b[i]),
    ensures
        parsed_status(a) is Ok <==> parsed_status(b) is Ok,
        parsed_status(a) is Ok ==> parsed_status(a) == parsed_status(b),
{
    assert(ascii_lowercase(a) =~= ascii_lowercase(b));
    law_status_ignores_ascii_case_and_separators(a, b);
}

/// Putting an ASCII character that is neither letter nor digit (a space, a
/// hyphen, an underscore, ...) anywhere into an ASCII text does not change
/// how it is read; so neither does taking one out.
pub proof fn law_ascii_separator_keeps_reading(a: Seq<char>, i: int, c: char)
    requires
        ascii_text(a),
        0 <= i <= a.len(),
        is_ascii_char(c),
        !ascii_alphanumeric(c),
    ensures
        parsed_status(a) is Ok <==> parsed_status(a.insert(i, c)) is Ok,
        parsed_status(a) is Ok ==> parsed_status(a) == parsed_status(a.insert(i, c)),
{
    broadcast use Seq::filter_distributes_over_add;

    let b = a.insert(i, c);
    assert forall|j: int| 0 <= j < b.len() implies #[trigger] is_ascii_char(b[j]) by {
        if j < i {
            assert(b[j] == a[j]);
        } else if j > i {
            assert(b[j] == a[j - 1]);
        }
    }
    let la = ascii_lowercase(a);
    let p = |x: char| ascii_alphanumeric(x);
    assert(ascii_lower(c) == c);
    assert(ascii_lowercase(b) =~= la.take(i) + seq![c] + la.skip(i));
    assert(la =~= la.take(i) + la.skip(i));
    reveal_with_fuel(Seq::<_>::filter, 2);
    assert(seq![c].drop_last() =~= Seq::<char>::empty());
    assert(seq![c].filter(p) =~= Seq::<char>::empty());
    assert(ascii_key(b) =~= la.take(i).filter(p) + la.skip(i).filter(p));
    law_status_ignores_ascii_case_and_separators(a, b);
}

} // verus!
