//! Validation of government identifiers. Two kinds are known, CURP and RFC,
//! each with a fixed shape. The shape is checked here, character by
//! character; the pattern engine is asked as well, and an identifier is
//! accepted only where both agree.

use vstd::prelude::*;
use vstd::string::*;
use crate::text::same_text;

verus! {

/// A verification request as a user submits it.
#[derive(Clone, Debug, PartialEq, Eq)]
pub struct VerificationData {
    /// curp or rfc
    pub id_type: String,
    pub id_number: String,
    pub full_name: String,
    pub municipio: String,
    pub user_type: String,
    pub additional_data: Vec<(String, String)>,
}

/// What a `VerificationData` stands for.
pub struct VerificationDataView {
    pub id_type: Seq<char>,
    pub id_number: Seq<char>,
    pub full_name: Seq<char>,
    pub municipio: Seq<char>,
    pub user_type: Seq<char>,
    pub additional_data: Seq<(Seq<char>, Seq<char>)>,
}

impl View for VerificationData {
    type V = VerificationDataView;

    open spec fn view(&self) -> VerificationDataView {
        VerificationDataView {
            id_type: self.id_type@,
            id_number: self.id_number@,
            full_name: self.full_name@,
            municipio: self.municipio@,
            user_type: self.user_type@,
            additional_data: self.additional_data@.map_values(
                |pair: (String, String)| (pair.0@, pair.1@),
            ),
        }
    }
}

/// The kinds of identifier that can be validated.
#[derive(Clone, Copy, Debug, PartialEq, Eq, Structural)]
pub enum IdKind {
    Curp,
    Rfc,
}

/// The classes of character that the shapes are made of.
#[derive(Clone, Copy, Debug, PartialEq, Eq, Structural)]
pub enum CharClass {
    /// `A` to `Z`
    Letter,
    /// `0` to `9`
    Digit,
    /// `A` to `Z` or `0` to `9`
    LetterOrDigit,
    /// `H` or `M`
    Sex,
}

/// Whether `c` belongs to `class`.
pub open spec fn in_class(class: CharClass, c: char) -> bool {
    match class {
        CharClass::Letter => 'A' <= c <= 'Z',
        CharClass::Digit => '0' <= c <= '9',
        CharClass::LetterOrDigit => 'A' <= c <= 'Z' || '0' <= c <= '9',
        CharClass::Sex => c == 'H' || c == 'M',
    }
}

/// Every character of `text` from place `from` up to, not including, place
/// `to` belongs to `class`.
pub open spec fn run_of(text: Seq<char>, from: int, to: int, class: CharClass) -> bool {
    forall|i: int| from <= i < to ==> in_class(class, #[trigger] text[i])
}

/// The shape of a CURP: 4 letters, 6 digits, `H` or `M`, 5 letters and 2
/// letters or digits, 18 characters in all.
pub open spec fn curp_shape(id: Seq<char>) -> bool {
    &&& id.len() == 18
    &&& run_of(id, 0, 4, CharClass::Letter)
    &&& run_of(id, 4, 10, CharClass::Digit)
    &&& run_of(id, 10, 11, CharClass::Sex)
    &&& run_of(id, 11, 16, CharClass::Letter)
    &&& run_of(id, 16, 18, CharClass::LetterOrDigit)
}

/// The shape of an RFC: 4 letters, 6 digits and 3 letters or digits, 13
/// characters in all.
pub open spec fn rfc_shape(id: Seq<char>) -> bool {
    &&& id.len() == 13
    &&& run_of(id, 0, 4, CharClass::Letter)
    &&& run_of(id, 4, 10, CharClass::Digit)
    &&& run_of(id, 10, 13, CharClass::LetterOrDigit)
}

/// The shape of an identifier of the given kind.
pub open spec fn id_shape(kind: IdKind, id: Seq<char>) -> bool {
    match kind {
        IdKind::Curp => curp_shape(id),
        IdKind::Rfc => rfc_shape(id),
    }
}

/// The kind that an identifier type names, if it names one.
pub open spec fn id_kind(id_type: Seq<char>) -> Option<IdKind> {
    if id_type == "curp"@ {
        Some(IdKind::Curp)
    } else if id_type == "rfc"@ {
        Some(IdKind::Rfc)
    } else {
        None
    }
}

/// The pattern that the pattern engine is asked to find in an identifier of
/// the given kind.
pub open spec fn id_pattern(kind: IdKind) -> Seq<char> {
    match kind {
        IdKind::Curp => "^[A-Z]{4}[0-9]{6}[HM][A-Z]{5}[A-Z0-9]{2}$"@,
        IdKind::Rfc => "^[A-Z]{4}[0-9]{6}[A-Z0-9]{3}$"@,
    }
}

/// The identifier, the name and the municipality are all given.
pub open spec fn fields_present(data: VerificationDataView) -> bool {
    data.id_number.len() > 0 && data.full_name.len() > 0 && data.municipio.len() > 0
}

/// Whether a request is accepted, given the pattern engine's answer for its
/// identifier: the fields are present, the identifier type is known, the
/// identifier has the shape of its kind, and the engine found the pattern.
pub open spec fn accepted_given(data: VerificationDataView, answer: Option<bool>) -> bool {
    &&& fields_present(data)
    &&& id_kind(data.id_type) matches Some(kind) && id_shape(kind, data.id_number)
    &&& answer == Some(true)
}

/// What the pattern engine answers for `pattern` and `text`: whether it finds
/// the pattern in the text, or nothing where it does not take the pattern.
pub uninterp spec fn pattern_finds(pattern: Seq<char>, text: Seq<char>) -> Option<bool>;

/// Whether a request is accepted.
pub open spec fn accepted(data: VerificationDataView) -> bool {
    match id_kind(data.id_type) {
        Some(kind) => accepted_given(data, pattern_finds(id_pattern(kind), data.id_number)),
        None => false,
    }
}

/// Asks the `regex` crate whether `text` holds a match of `pattern`:
/// `regex::Regex::new` compiles the pattern and `Regex::is_match` searches
/// the text. Nothing is proved of the answer; it is only given its name. The
/// answer is `None` where `Regex::new` returns an error.
#[verifier::external_body]
pub(crate) fn search_pattern(pattern: &str, text: &str) -> (answer: Option<bool>)
    ensures
        answer == pattern_finds(pattern@, text@),
{
    match regex::Regex::new(pattern) {
        Ok(compiled) => Some(compiled.is_match(text)),
        Err(_) => None,
    }
}

/// Whether `c` belongs to `class`.
pub fn char_in_class(class: CharClass, c: char) -> (inside: bool)
    ensures
        inside == in_class(class, c),
{
    match class {
        CharClass::Letter => 'A' <= c && c <= 'Z',
        CharClass::Digit => '0' <= c && c <= '9',
        CharClass::LetterOrDigit => ('A' <= c && c <= 'Z') || ('0' <= c && c <= '9'),
        CharClass::Sex => c == 'H' || c == 'M',
    }
}

/// Whether every character of `text` from place `from` up to place `to`
/// belongs to `class`.
fn is_run_of(text: &str, from: usize, to: usize, class: CharClass) -> (ok: bool)
    requires
        from <= to <= text@.len(),
    ensures
        ok == run_of(text@, from as int, to as int, class),
{
    let mut i: usize = from;
    while i < to
        invariant
            from <= i <= to <= text@.len(),
            run_of(text@, from as int, i as int, class),
        decreases to - i,
    {
        if !char_in_class(class, text.get_char(i)) {
            return false;
        }
        i += 1;
    }
    true
}

/// Whether `id` has the shape of an identifier of the given kind.
pub fn has_id_shape(kind: IdKind, id: &str) -> (ok: bool)
    ensures
        ok == id_shape(kind, id@),
{
    let len: usize = id.unicode_len();
    match kind {
        IdKind::Curp => {
            len == 18 && is_run_of(id, 0, 4, CharClass::Letter) && is_run_of(
                id,
                4,
                10,
                CharClass::Digit,
            ) && is_run_of(id, 10, 11, CharClass::Sex) && is_run_of(id, 11, 16, CharClass::Letter)
                && is_run_of(id, 16, 18, CharClass::LetterOrDigit)
        },
        IdKind::Rfc => {
            len == 13 && is_run_of(id, 0, 4, CharClass::Letter) && is_run_of(
                id,
                4,
                10,
                CharClass::Digit,
            ) && is_run_of(id, 10, 13, CharClass::LetterOrDigit)
        },
    }
}

/// The kind that an identifier type names, if it names one.
pub fn id_kind_of(id_type: &str) -> (kind: Option<IdKind>)
    ensures
        kind == id_kind(id_type@),
{
    if same_text(id_type, "curp") {
        Some(IdKind::Curp)
    } else if same_text(id_type, "rfc") {
        Some(IdKind::Rfc)
    } else {
        None
    }
}

/// The pattern that the pattern engine is asked to find in an identifier of
/// the given kind.
pub fn id_pattern_of(kind: IdKind) -> (pattern: &'static str)
    ensures
        pattern@ == id_pattern(kind),
{
    match kind {
        IdKind::Curp => "^[A-Z]{4}[0-9]{6}[HM][A-Z]{5}[A-Z0-9]{2}$",
        IdKind::Rfc => "^[A-Z]{4}[0-9]{6}[A-Z0-9]{3}$",
    }
}

/// Whether the identifier, the name and the municipality are all given.
pub fn has_fields(data: &VerificationData) -> (ok: bool)
    ensures
        ok == fields_present(data@),
{
    !data.id_number.as_str().is_empty() && !data.full_name.as_str().is_empty()
        && !data.municipio.as_str().is_empty()
}

/// Decides a request, given the pattern engine's answer for its identifier.
pub fn validate_with_answer(data: &VerificationData, answer: Option<bool>) -> (ok: bool)
    ensures
        ok == accepted_given(data@, answer),
{
    if !has_fields(data) {
        return false;
    }
    match id_kind_of(data.id_type.as_str()) {
        Some(kind) => has_id_shape(kind, data.id_number.as_str()) && match answer {
            Some(found) => found,
            None => false,
        },
        None => false,
    }
}

} // verus!
