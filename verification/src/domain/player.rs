//! Players and display-name validation.

use vstd::prelude::*;

use crate::domain::error::{DisplayNameValidationError, DomainError};
use crate::domain::ids::PlayerId;
use crate::text::{chars_of, has_control_char, is_control, is_white_space, lemma_trim_idempotent, lemma_trim_is_inner, trim, trim_bounds, trim_end, trim_start};

verus! {

/// Seconds since the Unix epoch.
pub type Timestamp = u64;

/// The most characters a display name may have.
pub const MAX_DISPLAY_NAME_CHARS: usize = 20;

/// An anonymous participant of a room.
#[derive(Debug, PartialEq, Eq)]
pub struct Player {
    pub id: PlayerId,
    pub display_name: String,
    pub token_hash: String,
    pub joined_at: Timestamp,
    pub last_seen_at: Timestamp,
}

impl Clone for Player {
    fn clone(&self) -> (r: Self)
        ensures
            r == *self,
    {
        Player {
            id: self.id.clone(),
            display_name: self.display_name.clone(),
            token_hash: self.token_hash.clone(),
            joined_at: self.joined_at,
            last_seen_at: self.last_seen_at,
        }
    }
}

/// What validating a display name gives: the trimmed name, or why it is refused.
///
/// The name is trimmed of Unicode whitespace at both ends; the rest must have
/// between 1 and 20 characters and no control character.
pub open spec fn spec_validate_display_name(name: Seq<char>) -> Result<Seq<char>, DisplayNameValidationError> {
    let t = trim(name);
    if t.len() < 1 {
        Err(DisplayNameValidationError::Empty)
    } else if t.len() > MAX_DISPLAY_NAME_CHARS {
        Err(DisplayNameValidationError::TooLong { length: t.len() as usize, max: MAX_DISPLAY_NAME_CHARS })
    } else if exists|i: int| 0 <= i < t.len() && is_control(#[trigger] t[i]) {
        Err(DisplayNameValidationError::ContainsControlCharacter)
    } else {
        Ok(t)
    }
}

/// Whether `r`, the result of a validation, is what `spec_validate_display_name` gives for `name`.
pub open spec fn validated_name_result(name: Seq<char>, r: Result<String, DomainError>) -> bool {
    match r {
        Ok(s) => spec_validate_display_name(name) == Ok::<Seq<char>, DisplayNameValidationError>(s@),
        Err(DomainError::InvalidDisplayName(e)) => spec_validate_display_name(name) == Err::<Seq<char>, DisplayNameValidationError>(e),
        Err(_) => false,
    }
}

/// Trims a display name and checks it against the display-name rules.
pub fn validate_display_name(name: &str) -> (r: Result<String, DomainError>)
    ensures
        validated_name_result(name@, r),
{
    let chars = chars_of(name);
    let (start, end) = trim_bounds(&chars);
    let len = end - start;
    if len < 1 {
        return Err(DomainError::InvalidDisplayName(DisplayNameValidationError::Empty));
    }
    if len > MAX_DISPLAY_NAME_CHARS {
        return Err(DomainError::InvalidDisplayName(
            DisplayNameValidationError::TooLong { length: len, max: MAX_DISPLAY_NAME_CHARS },
        ));
    }
    if has_control_char(&chars, start, end) {
        return Err(DomainError::InvalidDisplayName(DisplayNameValidationError::ContainsControlCharacter));
    }
    let trimmed = name.substring_char(start, end);
    Ok(String::from_str(trimmed))
}

impl Player {
    /// A player who joins at `joined_at` under a validated display name.
    pub fn new(id: PlayerId, display_name: &str, token_hash: &str, joined_at: Timestamp) -> (r: Result<Self, DomainError>)
        ensures
            match r {
                Ok(p) => {
                    &&& spec_validate_display_name(display_name@) == Ok::<Seq<char>, DisplayNameValidationError>(p.display_name@)
                    &&& p.id == id
                    &&& p.token_hash@ == token_hash@
                    &&& p.joined_at == joined_at
                    &&& p.last_seen_at == joined_at
                },
                Err(DomainError::InvalidDisplayName(e)) => spec_validate_display_name(display_name@) == Err::<Seq<char>, DisplayNameValidationError>(e),
                Err(_) => false,
            },
    {
        let name = validate_display_name(display_name)?;
        Ok(Self {
            id,
            display_name: name,
            token_hash: String::from_str(token_hash),
            joined_at,
            last_seen_at: joined_at,
        })
    }
}

/// A valid display name is trimmed, has 1 to 20 characters and no control character,
/// and validating it again gives it back unchanged.
pub proof fn law_valid_display_name_is_stable(name: Seq<char>)
    requires
        spec_validate_display_name(name) is Ok,
    ensures
        ({
            let t = spec_validate_display_name(name)->Ok_0;
            &&& 1 <= t.len() <= MAX_DISPLAY_NAME_CHARS
            &&& !is_white_space(t[0]) && !is_white_space(t.last())
            &&& forall|i: int| 0 <= i < t.len() ==> !is_control(#[trigger] t[i])
            &&& spec_validate_display_name(t) == Ok::<Seq<char>, DisplayNameValidationError>(t)
        }),
{
    lemma_trim_idempotent(name);
}

/// Validation accepts a name exactly when, without the whitespace at its ends, it has
/// 1 to 20 characters and no control character; it then gives back that inner part of
/// the name, unchanged. A name already in that shape is accepted as it is.
pub proof fn law_display_name_validation_trims_only(name: Seq<char>)
    ensures
        spec_validate_display_name(name) is Ok <==> 1 <= trim(name).len() <= 20 && forall|i: int|
            0 <= i < trim(name).len() ==> !is_control(#[trigger] trim(name)[i]),
        spec_validate_display_name(name) is Ok ==> exists|a: int, b: int| {
            &&& 0 <= a <= b <= name.len()
            &&& spec_validate_display_name(name)->Ok_0 == name.subrange(a, b)
            &&& forall|i: int| 0 <= i < a ==> is_white_space(#[trigger] name[i])
            &&& forall|i: int| b <= i < name.len() ==> is_white_space(#[trigger] name[i])
        },
        1 <= name.len() <= 20 && !is_white_space(name[0]) && !is_white_space(name.last()) && (forall|i: int|
            0 <= i < name.len() ==> !is_control(#[trigger] name[i])) ==> spec_validate_display_name(name)
            == Ok::<Seq<char>, DisplayNameValidationError>(name),
{
    lemma_trim_is_inner(name);
    if 1 <= name.len() && !is_white_space(name[0]) && !is_white_space(name.last()) {
        assert(trim_start(name) == name);
        assert(trim_end(name) == name);
    }
}

} // verus!
