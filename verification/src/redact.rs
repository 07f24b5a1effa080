//! Pattern-based redaction of personal data.
//!
//! Each match is replaced with a typed `[REDACTED:<KIND>]` placeholder. The passes run
//! in the order email, card, phone, id, and each sees only what the one before it left:
//! a card number that was redacted cannot be taken for a phone number or an id.
use vstd::prelude::*;
use vstd::utf8::is_ascii_chars;

use crate::text::{has, stands_at};

verus! {

/// What a redaction pass looks for.
#[derive(Debug, Clone, Copy, PartialEq, Eq, Structural)]
pub enum Pii {
    /// An email address.
    Email,
    /// Thirteen to nineteen digits, perhaps grouped by single spaces or dashes.
    Card,
    /// Digit groups with a separator between the first two.
    Phone,
    /// Nine to eleven consecutive digits.
    IdNumber,
}

/// The regular expression of a pass.
pub open spec fn pattern(p: Pii) -> Seq<char> {
    match p {
        Pii::Email => "[A-Za-z0-9._%+-]+@[A-Za-z0-9.-]+\\.[A-Za-z]{2,}"@,
        Pii::Card => "\\b\\d(?:[ -]?\\d){12,18}\\b"@,
        Pii::Phone => "\\+?\\(?\\d{1,4}\\)?[ .\\-]\\d{2,4}(?:[ .\\-]?\\d{2,4}){0,2}"@,
        Pii::IdNumber => "\\b\\d{9,11}\\b"@,
    }
}

/// What a pass puts in the place of a match.
pub open spec fn placeholder(p: Pii) -> Seq<char> {
    match p {
        Pii::Email => "[REDACTED:EMAIL]"@,
        Pii::Card => "[REDACTED:CARD]"@,
        Pii::Phone => "[REDACTED:PHONE]"@,
        Pii::IdNumber => "[REDACTED:ID_NUMBER]"@,
    }
}

/// What `regex::Regex::is_match` returns for a pattern and a text.
pub uninterp spec fn regex_is_match(pattern: Seq<char>, text: Seq<char>) -> bool;

/// What `regex::Regex::replace_all` returns for a pattern, a text and a replacement.
pub uninterp spec fn regex_replace_all(
    pattern: Seq<char>,
    text: Seq<char>,
    replacement: Seq<char>,
) -> Seq<char>;

impl Pii {
    /// The regular expression of the pass.
    pub fn pattern(&self) -> (r: &'static str)
        ensures
            r@ == pattern(*self),
    {
        match self {
            Pii::Email => "[A-Za-z0-9._%+-]+@[A-Za-z0-9.-]+\\.[A-Za-z]{2,}",
            Pii::Card => "\\b\\d(?:[ -]?\\d){12,18}\\b",
            Pii::Phone => "\\+?\\(?\\d{1,4}\\)?[ .\\-]\\d{2,4}(?:[ .\\-]?\\d{2,4}){0,2}",
            Pii::IdNumber => "\\b\\d{9,11}\\b",
        }
    }

    /// What the pass puts in the place of a match.
    pub fn placeholder(&self) -> (r: &'static str)
        ensures
            r@ == placeholder(*self),
    {
        match self {
            Pii::Email => "[REDACTED:EMAIL]",
            Pii::Card => "[REDACTED:CARD]",
            Pii::Phone => "[REDACTED:PHONE]",
            Pii::IdNumber => "[REDACTED:ID_NUMBER]",
        }
    }
}

// ---- what the patterns stand for -------------------------------------------

/// Whether a character is a digit.
pub open spec fn is_digit(c: char) -> bool {
    '0' <= c && c <= '9'
}

/// Whether a character is a letter of ASCII.
pub open spec fn is_letter(c: char) -> bool {
    ('a' <= c && c <= 'z') || ('A' <= c && c <= 'Z')
}

/// Whether a piece of a text stands alone: no letter, digit or underscore touches it.
pub open spec fn stands_alone(t: Seq<char>, i: int, j: int) -> bool {
    &&& i > 0 ==> !(is_digit(t[i - 1]) || is_letter(t[i - 1]) || t[i - 1] == '_')
    &&& j < t.len() ==> !(is_digit(t[j]) || is_letter(t[j]) || t[j] == '_')
}

/// Whether a text holds an address at an `@`: a character of a name before it, and behind
/// it a host with a dot that two letters follow.
pub open spec fn email_at(t: Seq<char>, at: int, dot: int) -> bool {
    &&& 0 < at && at + 1 < dot && dot + 2 < t.len()
    &&& t[at] == '@' && t[dot] == '.'
    &&& is_digit(t[at - 1]) || is_letter(t[at - 1]) || t[at - 1] == '.' || t[at - 1] == '_' || t[at
        - 1] == '%' || t[at - 1] == '+' || t[at - 1] == '-'
    &&& forall|i: int|
        at < i < dot ==> is_digit(#[trigger] t[i]) || is_letter(t[i]) || t[i] == '.' || t[i] == '-'
    &&& is_letter(t[dot + 1]) && is_letter(t[dot + 2])
}

/// How many digits a text holds.
pub open spec fn digits_in(t: Seq<char>) -> nat
    decreases t.len(),
{
    if t.len() == 0 {
        0
    } else {
        digits_in(t.drop_last()) + if is_digit(t.last()) {
            1nat
        } else {
            0nat
        }
    }
}

/// Whether a piece of a text is a card number: thirteen to nineteen digits, with single
/// spaces or dashes between some of them, that stands alone.
pub open spec fn card_at(t: Seq<char>, i: int, j: int) -> bool {
    &&& 0 <= i < j <= t.len()
    &&& is_digit(t[i]) && is_digit(t[j - 1])
    &&& forall|k: int| i <= k < j ==> is_digit(#[trigger] t[k]) || t[k] == ' ' || t[k] == '-'
    &&& forall|k: int| i <= k < j - 1 && !is_digit(#[trigger] t[k]) ==> is_digit(t[k + 1])
    &&& 13 <= digits_in(t.subrange(i, j)) <= 19
    &&& stands_alone(t, i, j)
}

/// Whether a text holds the heart of a phone number: a digit, perhaps a closing bracket,
/// then a space, a dot or a dash, and two digits.
pub open spec fn phone_at(t: Seq<char>, i: int) -> bool {
    let k = if i + 1 < t.len() && t[i + 1] == ')' {
        i + 2
    } else {
        i + 1
    };
    &&& 0 <= i && k + 2 < t.len()
    &&& is_digit(t[i])
    &&& t[k] == ' ' || t[k] == '.' || t[k] == '-'
    &&& is_digit(t[k + 1]) && is_digit(t[k + 2])
}

/// Whether a piece of a text is an id number: nine to eleven digits that stand alone.
pub open spec fn id_at(t: Seq<char>, i: int, j: int) -> bool {
    &&& 0 <= i && j <= t.len()
    &&& 9 <= j - i <= 11
    &&& forall|k: int| i <= k < j ==> is_digit(#[trigger] t[k])
    &&& stands_alone(t, i, j)
}

/// Whether a text holds an email address.
pub open spec fn holds_email(t: Seq<char>) -> bool {
    exists|at: int, dot: int| email_at(t, at, dot)
}

/// Whether a text holds a card number.
pub open spec fn holds_card(t: Seq<char>) -> bool {
    exists|i: int, j: int| card_at(t, i, j)
}

/// Whether a text holds a phone number.
pub open spec fn holds_phone(t: Seq<char>) -> bool {
    exists|i: int| phone_at(t, i)
}

/// Whether a text holds an id number.
pub open spec fn holds_id(t: Seq<char>) -> bool {
    exists|i: int, j: int| id_at(t, i, j)
}

/// `regex::Regex::is_match`: whether the pattern matches somewhere in the text. It
/// depends on the two alone. The patterns of the passes are valid, so compiling one
/// does not fail. Of texts of ASCII characters it is said what each of the patterns
/// matches; of other texts that is left unsaid.
#[verifier::external_body]
fn is_match(pattern: &str, text: &str) -> (r: bool)
    requires
        exists|p: Pii| pattern@ == self::pattern(p),
    ensures
        r == regex_is_match(pattern@, text@),
        pattern@ == "[A-Za-z0-9._%+-]+@[A-Za-z0-9.-]+\\.[A-Za-z]{2,}"@ && is_ascii_chars(text@)
            ==> r == holds_email(text@),
        pattern@ == "\\b\\d(?:[ -]?\\d){12,18}\\b"@ && is_ascii_chars(text@) ==> r == holds_card(
            text@,
        ),
        pattern@ == "\\+?\\(?\\d{1,4}\\)?[ .\\-]\\d{2,4}(?:[ .\\-]?\\d{2,4}){0,2}"@
            && is_ascii_chars(text@) ==> r == holds_phone(text@),
        pattern@ == "\\b\\d{9,11}\\b"@ && is_ascii_chars(text@) ==> r == holds_id(text@),
{
    regex::Regex::new(pattern).unwrap().is_match(text)
}

/// `regex::Regex::replace_all`: the text with every match of the pattern replaced. It
/// depends on its arguments alone, and a text without a match comes back unchanged. Where
/// there is a match the replacement stands in the result, and a placeholder that stands in
/// the text does so too: no match reaches over its brackets. The result of a text of ASCII
/// characters is one too, and holds nothing that the pattern matches: the placeholders
/// neither hold nor touch what one could be made of. What stands between the matches is
/// left unsaid.
#[verifier::external_body]
fn replace_all(pattern: &str, text: &str, replacement: &str) -> (r: String)
    requires
        exists|p: Pii| pattern@ == self::pattern(p) && replacement@ == placeholder(p),
    ensures
        r@ == regex_replace_all(pattern@, text@, replacement@),
        !regex_is_match(pattern@, text@) ==> r@ == text@,
        regex_is_match(pattern@, text@) ==> has(r@, replacement@),
        forall|q: Pii| has(text@, #[trigger] placeholder(q)) ==> has(r@, placeholder(q)),
        is_ascii_chars(text@) ==> is_ascii_chars(r@),
        pattern@ == "[A-Za-z0-9._%+-]+@[A-Za-z0-9.-]+\\.[A-Za-z]{2,}"@ && is_ascii_chars(text@)
            ==> !holds_email(r@),
        pattern@ == "\\b\\d(?:[ -]?\\d){12,18}\\b"@ && is_ascii_chars(text@) ==> !holds_card(r@),
        pattern@ == "\\+?\\(?\\d{1,4}\\)?[ .\\-]\\d{2,4}(?:[ .\\-]?\\d{2,4}){0,2}"@
            && is_ascii_chars(text@) ==> !holds_phone(r@),
        pattern@ == "\\b\\d{9,11}\\b"@ && is_ascii_chars(text@) ==> !holds_id(r@),
{
    regex::Regex::new(pattern).unwrap().replace_all(text, replacement).into_owned()
}

/// What one pass leaves of a text, and whether it or a pass before it found something.
pub open spec fn pass(p: Pii, before: (Seq<char>, bool)) -> (Seq<char>, bool) {
    if regex_is_match(pattern(p), before.0) {
        (regex_replace_all(pattern(p), before.0, placeholder(p)), true)
    } else {
        before
    }
}

/// The redacted text, and whether anything was redacted.
pub open spec fn report(text: Seq<char>) -> (Seq<char>, bool) {
    pass(Pii::IdNumber, pass(Pii::Phone, pass(Pii::Card, pass(Pii::Email, (text, false)))))
}

/// The redacted text.
pub open spec fn redacted(text: Seq<char>) -> Seq<char> {
    report(text).0
}

/// What a pass leaves behind, given whether its pattern matched and the text with the
/// matches replaced.
pub fn after_pass(before: (String, bool), matched: bool, replaced: String) -> (r: (String, bool))
    ensures
        matched ==> r.0@ == replaced@ && r.1,
        !matched ==> r.0@ == before.0@ && r.1 == before.1,
{
    if matched {
        (replaced, true)
    } else {
        before
    }
}

/// Whether a text holds what a pass looks for.
pub open spec fn holds(p: Pii, t: Seq<char>) -> bool {
    match p {
        Pii::Email => holds_email(t),
        Pii::Card => holds_card(t),
        Pii::Phone => holds_phone(t),
        Pii::IdNumber => holds_id(t),
    }
}

fn run_pass(p: Pii, before: (String, bool)) -> (r: (String, bool))
    ensures
        (r.0@, r.1) == pass(p, (before.0@, before.1)),
        forall|q: Pii| has(before.0@, #[trigger] placeholder(q)) ==> has(r.0@, placeholder(q)),
        is_ascii_chars(before.0@) ==> {
            &&& is_ascii_chars(r.0@)
            &&& r.1 <==> before.1 || holds(p, before.0@)
            &&& holds(p, before.0@) ==> has(r.0@, placeholder(p))
            &&& !holds(p, before.0@) ==> r.0@ == before.0@
            &&& !holds(p, r.0@)
        },
{
    let matched: bool = is_match(p.pattern(), before.0.as_str());
    let replaced: String = replace_all(p.pattern(), before.0.as_str(), p.placeholder());
    after_pass(before, matched, replaced)
}

/// Whether a text holds another that stands alone.
pub open spec fn has_alone(t: Seq<char>, d: Seq<char>) -> bool {
    exists|i: int| #[trigger] stands_at(t, d, i) && stands_alone(t, i, i + d.len())
}

proof fn lemma_id_run(t: Seq<char>, d: Seq<char>, i: int)
    requires
        stands_at(t, d, i),
        9 <= d.len() <= 11,
        forall|i: int| 0 <= i < d.len() ==> '0' <= #[trigger] d[i] <= '9',
        stands_alone(t, i, i + d.len()),
    ensures
        holds_id(t),
{
    assert forall|k: int| i <= k < i + d.len() implies is_digit(#[trigger] t[k]) by {
        assert(t.subrange(i, i + d.len())[k - i] == d[k - i]);
    }
    assert(id_at(t, i, i + d.len()));
}

/// Redacts personal data, and says whether there was any. Of a text of ASCII characters it
/// is known what counts: something is redacted where it holds an address, a card, a phone or
/// an id number, and no id number is left.
pub fn redact_report(text: &str) -> (r: (String, bool))
    ensures
        (r.0@, r.1) == report(text@),
        !r.1 ==> r.0@ == text@,
        is_ascii_chars(text@) ==> {
            &&& r.1 <==> holds_email(text@) || holds_card(text@) || holds_phone(text@) || holds_id(
                text@,
            )
            &&& !holds_id(r.0@)
            &&& holds_email(text@) ==> has(r.0@, "[REDACTED:EMAIL]"@)
            &&& !holds_email(text@) && holds_card(text@) ==> has(r.0@, "[REDACTED:CARD]"@)
            &&& !holds_email(text@) && !holds_card(text@) && holds_phone(text@) ==> has(
                r.0@,
                "[REDACTED:PHONE]"@,
            )
            &&& !holds_email(text@) && !holds_card(text@) && !holds_phone(text@) && holds_id(text@)
                ==> has(r.0@, "[REDACTED:ID_NUMBER]"@)
        },
        forall|a: Seq<char>, d: Seq<char>, b: Seq<char>|
            text@ == #[trigger] (a + d + b) && is_ascii_chars(text@) && 9 <= d.len() <= 11 && (
            forall|i: int| 0 <= i < d.len() ==> '0' <= #[trigger] d[i] <= '9') && stands_alone(
                text@,
                a.len() as int,
                a.len() as int + d.len(),
            ) ==> r.1 && !has_alone(r.0@, d),
{
    proof {
        unredacted_text_is_unchanged(text@);
    }
    let start: (String, bool) = (text.to_owned(), false);
    let email: (String, bool) = run_pass(Pii::Email, start);
    let card: (String, bool) = run_pass(Pii::Card, email);
    let phone: (String, bool) = run_pass(Pii::Phone, card);
    let r: (String, bool) = run_pass(Pii::IdNumber, phone);
    proof {
        assert(placeholder(Pii::Email) == "[REDACTED:EMAIL]"@);
        assert(placeholder(Pii::Card) == "[REDACTED:CARD]"@);
        assert(placeholder(Pii::Phone) == "[REDACTED:PHONE]"@);
        assert forall|a: Seq<char>, d: Seq<char>, b: Seq<char>|
            text@ == #[trigger] (a + d + b) && is_ascii_chars(text@) && 9 <= d.len() <= 11 && (
            forall|i: int| 0 <= i < d.len() ==> '0' <= #[trigger] d[i] <= '9') && stands_alone(
                text@,
                a.len() as int,
                a.len() as int + d.len(),
            ) implies r.1 && !has_alone(r.0@, d) by {
            let n = a.len() as int;
            assert(text@.subrange(n, n + d.len()) =~= d);
            lemma_id_run(text@, d, n);
            if has_alone(r.0@, d) {
                let i = choose|i: int| #[trigger] stands_at(r.0@, d, i) && stands_alone(r.0@, i, i + d.len());
                lemma_id_run(r.0@, d, i);
            }
        }
    }
    r
}

/// Redacts personal data. A text without any comes back unchanged.
pub fn redact(text: &str) -> (r: String)
    ensures
        r@ == redacted(text@),
        !report(text@).1 ==> r@ == text@,
        is_ascii_chars(text@) ==> {
            &&& !holds_id(r@)
            &&& !holds_email(text@) && !holds_card(text@) && !holds_phone(text@) && !holds_id(text@)
                ==> r@ == text@
            &&& holds_email(text@) ==> has(r@, "[REDACTED:EMAIL]"@)
        },
{
    redact_report(text).0
}

/// Where nothing is reported as redacted, the text is unchanged.
pub proof fn unredacted_text_is_unchanged(text: Seq<char>)
    ensures
        !report(text).1 ==> redacted(text) == text,
{
}

/// Something is reported as redacted if and only if a pass matches what the passes
/// before it left.
pub proof fn redaction_is_reported(text: Seq<char>)
    ensures
        report(text).1 <==> {
            let email = pass(Pii::Email, (text, false)).0;
            let card = pass(Pii::Card, (email, false)).0;
            let phone = pass(Pii::Phone, (card, false)).0;
            ||| regex_is_match(pattern(Pii::Email), text)
            ||| regex_is_match(pattern(Pii::Card), email)
            ||| regex_is_match(pattern(Pii::Phone), card)
            ||| regex_is_match(pattern(Pii::IdNumber), phone)
        },
{
}

} // verus!
