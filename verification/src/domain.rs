//! Validated domain value types: subscriber names and email addresses are
//! checked once, at construction, and every live instance is valid.

use vstd::prelude::*;

use unicode_segmentation::UnicodeSegmentation;

verus! {

/// Why a raw form field was rejected by the domain rules.
#[derive(Clone, Copy, Debug, PartialEq, Eq, Structural)]
pub enum ValidationError {
    /// The trimmed name is empty.
    Empty,
    /// The name has more than 256 grapheme clusters.
    TooLong,
    /// The name contains a character from the forbidden set.
    ForbiddenCharacter,
    /// The string does not have the shape of an email address.
    MalformedEmail,
}

/// Characters that may never appear in a subscriber name.
pub open spec fn is_forbidden_char(c: char) -> bool {
    ||| c == '/'
    ||| c == '('
    ||| c == ')'
    ||| c == '"'
    ||| c == '<'
    ||| c == '>'
    ||| c == '\\'
    ||| c == '{'
    ||| c == '}'
}

pub open spec fn has_forbidden_char(s: Seq<char>) -> bool {
    exists|i: int| 0 <= i < s.len() && is_forbidden_char(s[i])
}

/// Whitespace for the purpose of deciding that a name is empty.
pub open spec fn is_space_char(c: char) -> bool {
    c == ' ' || c == '\t' || c == '\n' || c == '\r'
}

/// A name made only of whitespace trims down to the empty string.
pub open spec fn is_blank(s: Seq<char>) -> bool {
    forall|i: int| 0 <= i < s.len() ==> is_space_char(s[i])
}

/// Number of extended grapheme clusters in a character sequence, as given
/// by the Unicode text-segmentation rules.
pub uninterp spec fn grapheme_count_of(s: Seq<char>) -> nat;

/// Relies on unicode_segmentation::UnicodeSegmentation::graphemes with
/// extended clusters selected: the segmentation of a string into grapheme
/// clusters is a function of its characters alone.
#[verifier::external_body]
fn grapheme_count(s: &str) -> (n: usize)
    ensures
        n as nat == grapheme_count_of(s@),
{
    s.graphemes(true).count()
}

/// The error, if any, that the name rules assign to a raw string: a blank
/// string is empty; otherwise more than 256 graphemes is too long;
/// otherwise a forbidden character condemns it.
pub open spec fn name_error(s: Seq<char>) -> Option<ValidationError> {
    if is_blank(s) {
        Some(ValidationError::Empty)
    } else if grapheme_count_of(s) > 256 {
        Some(ValidationError::TooLong)
    } else if has_forbidden_char(s) {
        Some(ValidationError::ForbiddenCharacter)
    } else {
        None
    }
}

pub open spec fn valid_name(s: Seq<char>) -> bool {
    name_error(s) is None
}

/// A subscriber name that passed the domain rules; it keeps the original,
/// untrimmed string.
#[derive(Debug)]
pub struct SubscriberName {
    name: String,
}

impl View for SubscriberName {
    type V = Seq<char>;

    closed spec fn view(&self) -> Seq<char> {
        self.name@
    }
}

impl SubscriberName {
    #[verifier::type_invariant]
    pub closed spec fn wf(self) -> bool {
        valid_name(self.name@)
    }

    pub fn as_str(&self) -> (r: &str)
        ensures
            r@ == self@,
            valid_name(self@),
    {
        proof {
            use_type_invariant(self);
        }
        self.name.as_str()
    }
}

/// Validates a raw subscriber name, returning the wrapper on success and
/// the exact rule that failed otherwise.
pub fn parse_name(raw: String) -> (r: Result<SubscriberName, ValidationError>)
    ensures
        match r {
            Ok(n) => name_error(raw@) is None && n@ == raw@,
            Err(e) => name_error(raw@) == Some(e),
        },
{
    let s = raw.as_str();
    let len = s.unicode_len();
    let mut i: usize = 0;
    let mut blank = true;
    while blank && i < len
        invariant
            0 <= i <= len,
            len == s@.len(),
            s@ == raw@,
            blank ==> forall|j: int| 0 <= j < i ==> is_space_char(s@[j]),
            !blank ==> !is_blank(s@),
        decreases len - i,
    {
        let c = s.get_char(i);
        if !(c == ' ' || c == '\t' || c == '\n' || c == '\r') {
            blank = false;
        }
        i += 1;
    }
    if blank {
        return Err(ValidationError::Empty);
    }
    let graphemes = grapheme_count(s);
    if graphemes > 256 {
        return Err(ValidationError::TooLong);
    }
    let mut i: usize = 0;
    while i < len
        invariant
            0 <= i <= len,
            len == s@.len(),
            s@ == raw@,
            !is_blank(s@),
            grapheme_count_of(s@) <= 256,
            forall|j: int| 0 <= j < i ==> !is_forbidden_char(s@[j]),
        decreases len - i,
    {
        let c = s.get_char(i);
        if c == '/' || c == '(' || c == ')' || c == '"' || c == '<' || c == '>' || c == '\\'
            || c == '{' || c == '}' {
            proof {
                assert(is_forbidden_char(s@[i as int]));
            }
            return Err(ValidationError::ForbiddenCharacter);
        }
        i += 1;
    }
    Ok(SubscriberName { name: raw })
}

/// Position i splits s into a non-empty local part, a single '@', and a
/// domain that is non-empty and contains a '.'.
pub open spec fn email_shape_at(s: Seq<char>, i: int) -> bool {
    &&& 0 < i
    &&& i + 1 < s.len()
    &&& s[i] == '@'
    &&& forall|j: int| 0 <= j < s.len() && s[j] == '@' ==> j == i
    &&& exists|k: int| i < k < s.len() && s[k] == '.'
}

/// The email grammar: exactly one '@', non-empty local part, non-empty
/// domain containing at least one '.'.
pub open spec fn valid_email(s: Seq<char>) -> bool {
    exists|i: int| #[trigger] email_shape_at(s, i)
}

/// An email address that matches the grammar; it keeps the original string.
#[derive(Debug)]
pub struct SubscriberEmail {
    email: String,
}

impl View for SubscriberEmail {
    type V = Seq<char>;

    closed spec fn view(&self) -> Seq<char> {
        self.email@
    }
}

impl SubscriberEmail {
    #[verifier::type_invariant]
    pub closed spec fn wf(self) -> bool {
        valid_email(self.email@)
    }

    pub fn as_str(&self) -> (r: &str)
        ensures
            r@ == self@,
            valid_email(self@),
    {
        proof {
            use_type_invariant(self);
        }
        self.email.as_str()
    }
}

/// Validates a raw email address against the grammar.
pub fn parse_email(raw: String) -> (r: Result<SubscriberEmail, ValidationError>)
    ensures
        match r {
            Ok(e) => valid_email(raw@) && e@ == raw@,
            Err(e) => !valid_email(raw@) && e == ValidationError::MalformedEmail,
        },
{
    let s = raw.as_str();
    let len = s.unicode_len();
    let mut i: usize = 0;
    while i < len && !(s.get_char(i) == '@')
        invariant
            0 <= i <= len,
            len == s@.len(),
            s@ == raw@,
            forall|j: int| 0 <= j < i ==> s@[j] != '@',
        decreases len - i,
    {
        i += 1;
    }
    if i == len {
        // No '@' anywhere.
        proof {
            assert forall|p: int| !email_shape_at(s@, p) by {
                if 0 <= p < s@.len() {
                    assert(s@[p] != '@');
                }
            }
        }
        return Err(ValidationError::MalformedEmail);
    }
    let at = i;
    let mut j: usize = at + 1;
    while j < len
        invariant
            0 <= at < j <= len,
            len == s@.len(),
            s@ == raw@,
            s@[at as int] == '@',
            forall|p: int| 0 <= p < at ==> s@[p] != '@',
            forall|p: int| at < p < j ==> s@[p] != '@',
        decreases len - j,
    {
        if s.get_char(j) == '@' {
            // A second '@' refutes uniqueness at every candidate split.
            proof {
                assert forall|p: int| !email_shape_at(s@, p) by {
                    if email_shape_at(s@, p) {
                        assert(p == at as int);
                        assert(p == j as int);
                    }
                }
            }
            return Err(ValidationError::MalformedEmail);
        }
        j += 1;
    }
    if at == 0 {
        proof {
            assert forall|p: int| !email_shape_at(s@, p) by {
                if email_shape_at(s@, p) {
                    assert(p == at as int);
                }
            }
        }
        return Err(ValidationError::MalformedEmail);
    }
    if at + 1 >= len {
        proof {
            assert forall|p: int| !email_shape_at(s@, p) by {
                if email_shape_at(s@, p) {
                    assert(p == at as int);
                }
            }
        }
        return Err(ValidationError::MalformedEmail);
    }
    let mut k: usize = at + 1;
    while k < len
        invariant
            0 < at < k <= len,
            at + 1 < len,
            len == s@.len(),
            s@ == raw@,
            s@[at as int] == '@',
            forall|p: int| 0 <= p < s@.len() && s@[p] == '@' ==> p == at as int,
            forall|p: int| at < p < k ==> s@[p] != '.',
        decreases len - k,
    {
        if s.get_char(k) == '.' {
            proof {
                assert(email_shape_at(s@, at as int));
            }
            return Ok(SubscriberEmail { email: raw });
        }
        k += 1;
    }
    // '@' is well placed but the domain has no '.'.
    proof {
        assert forall|p: int| !email_shape_at(s@, p) by {
            if email_shape_at(s@, p) {
                assert(p == at as int);
                let w = choose|w: int| p < w < s@.len() && s@[w] == '.';
                assert(s@[w] != '.');
            }
        }
    }
    Err(ValidationError::MalformedEmail)
}

/// The validated representation of an intake request: both fields already
/// passed their domain rules.
pub struct NewSubscriber {
    pub name: SubscriberName,
    pub email: SubscriberEmail,
}

/// A name that contains a forbidden character is rejected for exactly that
/// reason, as long as the length rule, which is checked first, does not
/// condemn it already; such a name is never blank, since no forbidden
/// character is whitespace.
pub proof fn lemma_forbidden_name_rejected(s: Seq<char>)
    ensures
        has_forbidden_char(s) && grapheme_count_of(s) <= 256 ==> name_error(s)
            == Some(ValidationError::ForbiddenCharacter),
{
    if has_forbidden_char(s) {
        let i = choose|i: int| 0 <= i < s.len() && is_forbidden_char(s[i]);
        assert(!is_space_char(s[i]));
        assert(!is_blank(s));
    }
}

/// A non-blank name of more than 256 graphemes fails as too long, and one
/// of at most 256 graphemes, free of forbidden characters, is accepted.
pub proof fn lemma_name_length_bound(s: Seq<char>)
    ensures
        !is_blank(s) && grapheme_count_of(s) > 256 ==> name_error(s) == Some(
            ValidationError::TooLong,
        ),
        !is_blank(s) && grapheme_count_of(s) <= 256 && !has_forbidden_char(s) ==> name_error(s)
            is None,
{
}

} // verus!
