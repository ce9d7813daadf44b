//! Parser for `application/x-www-form-urlencoded` request bodies.
//!
//! The body is a sequence of `key=value` segments separated by `&`. In a
//! key or a value, `+` stands for a space and `%XY`, with two hex digits,
//! stands for the byte `0xXY`; a `%` not followed by two hex digits makes
//! the body malformed. A segment without `=` is a key with an empty
//! value; empty segments are skipped; keys other than `name` and `email`
//! are ignored together with their values. Each of `name` and `email` may
//! appear at most once and must appear; their decoded values must be
//! valid UTF-8.

use vstd::prelude::*;
use vstd::utf8::{decode_utf8, valid_utf8};

verus! {

/// Why a request body could not be read as a subscription form.
#[derive(Clone, Copy, Debug, PartialEq, Eq, Structural)]
pub enum FormError {
    /// No `name` field in the body.
    MissingName,
    /// No `email` field in the body.
    MissingEmail,
    /// `name` or `email` appears more than once.
    DuplicateField,
    /// A malformed percent escape, or a value that is not valid UTF-8.
    BadEncoding,
}

/// The two raw form fields, percent-decoded, before domain validation.
#[derive(Debug)]
pub struct FormData {
    pub email: String,
    pub name: String,
}

pub const AMPERSAND: u8 = 38;

pub const EQUALS: u8 = 61;

pub const PERCENT: u8 = 37;

pub const PLUS: u8 = 43;

pub const SPACE: u8 = 32;

pub open spec fn is_hex_digit(b: u8) -> bool {
    (48 <= b <= 57) || (65 <= b <= 70) || (97 <= b <= 102)
}

pub open spec fn hex_value(b: u8) -> u8 {
    if 48 <= b <= 57 {
        (b - 48) as u8
    } else if 65 <= b <= 70 {
        (b - 55) as u8
    } else {
        (b - 87) as u8
    }
}

/// Percent-decoding of one key or value: `+` becomes a space, `%XY`
/// becomes a byte, anything else stands for itself.
pub open spec fn percent_decoded(s: Seq<u8>) -> Option<Seq<u8>>
    decreases s.len(),
{
    if s.len() == 0 {
        Some(Seq::empty())
    } else if s[0] == PERCENT {
        if s.len() >= 3 && is_hex_digit(s[1]) && is_hex_digit(s[2]) {
            match percent_decoded(s.skip(3)) {
                Some(rest) => Some(
                    seq![(hex_value(s[1]) * 16 + hex_value(s[2])) as u8].add(rest),
                ),
                None => None,
            }
        } else {
            None
        }
    } else {
        let b = if s[0] == PLUS {
            SPACE
        } else {
            s[0]
        };
        match percent_decoded(s.skip(1)) {
            Some(rest) => Some(seq![b].add(rest)),
            None => None,
        }
    }
}

/// A decoded value as a character sequence: percent-decoding followed by
/// UTF-8 decoding.
pub open spec fn decoded_text(s: Seq<u8>) -> Option<Seq<char>> {
    match percent_decoded(s) {
        Some(bytes) => if valid_utf8(bytes) {
            Some(decode_utf8(bytes))
        } else {
            None
        },
        None => None,
    }
}

/// Index of the first occurrence of b in s.
pub open spec fn find_byte(s: Seq<u8>, b: u8) -> Option<int>
    decreases s.len(),
{
    if s.len() == 0 {
        None
    } else if s[0] == b {
        Some(0)
    } else {
        match find_byte(s.drop_first(), b) {
            Some(i) => Some(i + 1),
            None => None,
        }
    }
}

pub proof fn lemma_find_byte_at(s: Seq<u8>, b: u8, j: int)
    requires
        0 <= j < s.len(),
        s[j] == b,
        forall|p: int| 0 <= p < j ==> s[p] != b,
    ensures
        find_byte(s, b) == Some(j),
    decreases j,
{
    if s[0] == b {
        assert(j == 0);
    } else {
        lemma_find_byte_at(s.drop_first(), b, j - 1);
    }
}

pub proof fn lemma_find_byte_bounds(s: Seq<u8>, b: u8)
    ensures
        match find_byte(s, b) {
            Some(i) => 0 <= i < s.len() && s[i] == b,
            None => true,
        },
    decreases s.len(),
{
    if s.len() > 0 && s[0] != b {
        lemma_find_byte_bounds(s.drop_first(), b);
    }
}

pub proof fn lemma_find_byte_none(s: Seq<u8>, b: u8)
    requires
        forall|p: int| 0 <= p < s.len() ==> s[p] != b,
    ensures
        find_byte(s, b) is None,
    decreases s.len(),
{
    if s.len() > 0 {
        lemma_find_byte_none(s.drop_first(), b);
    }
}

pub open spec fn name_key() -> Seq<u8> {
    seq![110u8, 97u8, 109u8, 101u8]
}

pub open spec fn email_key() -> Seq<u8> {
    seq![101u8, 109u8, 97u8, 105u8, 108u8]
}

/// The fields collected so far while scanning the body.
pub struct FieldState {
    pub name: Option<Seq<char>>,
    pub email: Option<Seq<char>>,
}

/// Effect of one `key=value` segment on the collected fields.
pub open spec fn apply_segment(seg: Seq<u8>, st: FieldState) -> Result<FieldState, FormError> {
    if seg.len() == 0 {
        Ok(st)
    } else {
        let keyb = match find_byte(seg, EQUALS) {
            Some(i) => seg.take(i),
            None => seg,
        };
        let valb = match find_byte(seg, EQUALS) {
            Some(i) => seg.skip(i + 1),
            None => Seq::<u8>::empty(),
        };
        match percent_decoded(keyb) {
            None => Err(FormError::BadEncoding),
            Some(kb) => if kb == name_key() {
                if st.name is Some {
                    Err(FormError::DuplicateField)
                } else {
                    match decoded_text(valb) {
                        None => Err(FormError::BadEncoding),
                        Some(v) => Ok(FieldState { name: Some(v), ..st }),
                    }
                }
            } else if kb == email_key() {
                if st.email is Some {
                    Err(FormError::DuplicateField)
                } else {
                    match decoded_text(valb) {
                        None => Err(FormError::BadEncoding),
                        Some(v) => Ok(FieldState { email: Some(v), ..st }),
                    }
                }
            } else {
                Ok(st)
            },
        }
    }
}

/// Scan of the remaining body, segment by segment.
pub open spec fn scan_form(s: Seq<u8>, st: FieldState) -> Result<FieldState, FormError>
    decreases s.len(),
    via scan_form_decreases
{
    match find_byte(s, AMPERSAND) {
        Some(i) => match apply_segment(s.take(i), st) {
            Err(e) => Err(e),
            Ok(st2) => scan_form(s.skip(i + 1), st2),
        },
        None => apply_segment(s, st),
    }
}

#[via_fn]
proof fn scan_form_decreases(s: Seq<u8>, st: FieldState) {
    lemma_find_byte_bounds(s, AMPERSAND);
}

/// What a request body means as a subscription form.
pub open spec fn form_fields(body: Seq<u8>) -> Result<(Seq<char>, Seq<char>), FormError> {
    match scan_form(body, FieldState { name: None, email: None }) {
        Err(e) => Err(e),
        Ok(st) => match (st.name, st.email) {
            (Some(n), Some(e)) => Ok((n, e)),
            (None, _) => Err(FormError::MissingName),
            (_, None) => Err(FormError::MissingEmail),
        },
    }
}

fn is_hex_digit_exec(b: u8) -> (r: bool)
    ensures
        r == is_hex_digit(b),
{
    (48 <= b && b <= 57) || (65 <= b && b <= 70) || (97 <= b && b <= 102)
}

fn hex_value_exec(b: u8) -> (r: u8)
    requires
        is_hex_digit(b),
    ensures
        r == hex_value(b),
        r <= 15,
{
    if b <= 57 {
        b - 48
    } else if b <= 70 {
        b - 55
    } else {
        b - 87
    }
}

/// Percent-decodes body[start..end].
fn percent_decode_range(body: &[u8], start: usize, end: usize) -> (r: Option<Vec<u8>>)
    requires
        start <= end <= body@.len(),
    ensures
        match r {
            Some(v) => percent_decoded(body@.subrange(start as int, end as int)) == Some(v@),
            None => percent_decoded(body@.subrange(start as int, end as int)) is None,
        },
{
    let ghost seg = body@.subrange(start as int, end as int);
    let mut out: Vec<u8> = Vec::new();
    let mut i: usize = start;
    while i < end
        invariant
            start <= i <= end <= body@.len(),
            seg == body@.subrange(start as int, end as int),
            match percent_decoded(body@.subrange(i as int, end as int)) {
                Some(rest) => percent_decoded(seg) == Some(out@ + rest),
                None => percent_decoded(seg) is None,
            },
        decreases end - i,
    {
        let ghost rem = body@.subrange(i as int, end as int);
        let b = body[i];
        assert(rem[0] == b);
        if b == PERCENT {
            if end - i >= 3 && is_hex_digit_exec(body[i + 1]) && is_hex_digit_exec(body[i + 2]) {
                let v = hex_value_exec(body[i + 1]) * 16 + hex_value_exec(body[i + 2]);
                proof {
                    assert(rem.skip(3) =~= body@.subrange(i + 3, end as int));
                    assert(match percent_decoded(rem.skip(3)) {
                        Some(rest) => percent_decoded(rem) == Some(seq![v].add(rest)),
                        None => percent_decoded(rem) is None,
                    });
                }
                out.push(v);
                proof {
                    if percent_decoded(body@.subrange(i + 3, end as int)) is Some {
                        let rest = percent_decoded(body@.subrange(i + 3, end as int)).unwrap();
                        assert(out@ + rest =~= out@.drop_last() + (seq![v] + rest));
                    }
                }
                i = i + 3;
            } else {
                // A bare '%': the segment is malformed.
                return None;
            }
        } else {
            let v = if b == PLUS {
                SPACE
            } else {
                b
            };
            proof {
                assert(rem.skip(1) =~= body@.subrange(i + 1, end as int));
                assert(match percent_decoded(rem.skip(1)) {
                    Some(rest) => percent_decoded(rem) == Some(seq![v].add(rest)),
                    None => percent_decoded(rem) is None,
                });
            }
            out.push(v);
            proof {
                if percent_decoded(body@.subrange(i + 1, end as int)) is Some {
                    let rest = percent_decoded(body@.subrange(i + 1, end as int)).unwrap();
                    assert(out@ + rest =~= out@.drop_last() + (seq![v] + rest));
                }
            }
            i = i + 1;
        }
    }
    proof {
        assert(body@.subrange(i as int, end as int) =~= Seq::<u8>::empty());
        assert(out@ + Seq::<u8>::empty() =~= out@);
    }
    Some(out)
}

/// Relies on String::from_utf8: it succeeds exactly on byte sequences
/// that are valid UTF-8, and returns the character sequence they encode.
#[verifier::external_body]
fn string_from_utf8(bytes: Vec<u8>) -> (r: Option<String>)
    ensures
        r is Some <==> valid_utf8(bytes@),
        r is Some ==> r.unwrap()@ == decode_utf8(bytes@),
{
    String::from_utf8(bytes).ok()
}

/// Decodes body[start..end] as the text of a field value.
fn decode_text_range(body: &[u8], start: usize, end: usize) -> (r: Option<String>)
    requires
        start <= end <= body@.len(),
    ensures
        match r {
            Some(s) => decoded_text(body@.subrange(start as int, end as int)) == Some(s@),
            None => decoded_text(body@.subrange(start as int, end as int)) is None,
        },
{
    match percent_decode_range(body, start, end) {
        None => None,
        Some(bytes) => string_from_utf8(bytes),
    }
}

pub open spec fn opt_view(o: Option<String>) -> Option<Seq<char>> {
    match o {
        Some(s) => Some(s@),
        None => None,
    }
}

/// Reads a request body as a subscription form: the `name` and `email`
/// fields, each present exactly once, percent-decoded into text.
pub fn parse_form(body: &[u8]) -> (r: Result<FormData, FormError>)
    ensures
        match r {
            Ok(fd) => form_fields(body@) == Ok::<_, FormError>((fd.name@, fd.email@)),
            Err(e) => form_fields(body@) == Err::<(Seq<char>, Seq<char>), _>(e),
        },
{
    let len = body.len();
    let mut pos: usize = 0;
    let mut name: Option<String> = None;
    let mut email: Option<String> = None;
    let mut finished = false;
    proof {
        assert(body@.skip(0) =~= body@);
    }
    while !finished
        invariant
            pos <= len,
            len == body@.len(),
            !finished ==> scan_form(body@, FieldState { name: None, email: None }) == scan_form(
                body@.skip(pos as int),
                FieldState { name: opt_view(name), email: opt_view(email) },
            ),
            finished ==> scan_form(body@, FieldState { name: None, email: None }) == Ok::<
                _,
                FormError,
            >(FieldState { name: opt_view(name), email: opt_view(email) }),
        decreases len - pos + if finished {
            0int
        } else {
            1int
        },
    {
        let ghost rem = body@.skip(pos as int);
        // Find the end of the current segment.
        let mut j: usize = pos;
        while j < len && !(body[j] == AMPERSAND)
            invariant
                pos <= j <= len,
                len == body@.len(),
                forall|p: int| pos <= p < j ==> body@[p] != AMPERSAND,
            decreases len - j,
        {
            j = j + 1;
        }
        proof {
            if j < len {
                assert(rem[j - pos] == body@[j as int]);
                assert forall|p: int| 0 <= p < j - pos implies rem[p] != AMPERSAND by {
                    assert(rem[p] == body@[p + pos]);
                }
                lemma_find_byte_at(rem, AMPERSAND, j - pos);
            } else {
                assert forall|p: int| 0 <= p < rem.len() implies rem[p] != AMPERSAND by {
                    assert(rem[p] == body@[p + pos]);
                }
                lemma_find_byte_none(rem, AMPERSAND);
            }
        }
        let ghost seg = body@.subrange(pos as int, j as int);
        proof {
            assert(seg =~= rem.take(j - pos));
        }
        // Process the segment [pos, j).
        if pos < j {
            // Split it at the first '='.
            let mut q: usize = pos;
            while q < j && !(body[q] == EQUALS)
                invariant
                    pos <= q <= j <= len,
                    len == body@.len(),
                    forall|p: int| pos <= p < q ==> body@[p] != EQUALS,
                decreases j - q,
            {
                q = q + 1;
            }
            proof {
                if q < j {
                    assert(seg[q - pos] == body@[q as int]);
                    assert forall|p: int| 0 <= p < q - pos implies seg[p] != EQUALS by {
                        assert(seg[p] == body@[p + pos]);
                    }
                    lemma_find_byte_at(seg, EQUALS, q - pos);
                } else {
                    assert forall|p: int| 0 <= p < seg.len() implies seg[p] != EQUALS by {
                        assert(seg[p] == body@[p + pos]);
                    }
                    lemma_find_byte_none(seg, EQUALS);
                }
            }
            let kend = q;
            let vstart = if q < j {
                q + 1
            } else {
                j
            };
            proof {
                if q < j {
                    assert(seg.take(q - pos) =~= body@.subrange(pos as int, kend as int));
                    assert(seg.skip(q - pos + 1) =~= body@.subrange(vstart as int, j as int));
                } else {
                    assert(seg.take(seg.len() as int) =~= seg);
                    assert(body@.subrange(vstart as int, j as int) =~= Seq::<u8>::empty());
                }
            }
            let key = percent_decode_range(body, pos, kend);
            match key {
                None => {
                    return Err(FormError::BadEncoding);
                },
                Some(kb) => {
                    let is_name = kb.len() == 4 && kb[0] == 110 && kb[1] == 97 && kb[2] == 109
                        && kb[3] == 101;
                    let is_email = kb.len() == 5 && kb[0] == 101 && kb[1] == 109 && kb[2] == 97
                        && kb[3] == 105 && kb[4] == 108;
                    proof {
                        assert(is_name <==> (kb@ =~= name_key()));
                        assert(is_email <==> (kb@ =~= email_key()));
                    }
                    if is_name {
                        if name.is_some() {
                            return Err(FormError::DuplicateField);
                        }
                        match decode_text_range(body, vstart, j) {
                            None => {
                                return Err(FormError::BadEncoding);
                            },
                            Some(v) => {
                                name = Some(v);
                            },
                        }
                    } else if is_email {
                        if email.is_some() {
                            return Err(FormError::DuplicateField);
                        }
                        match decode_text_range(body, vstart, j) {
                            None => {
                                return Err(FormError::BadEncoding);
                            },
                            Some(v) => {
                                email = Some(v);
                            },
                        }
                    }
                },
            }
        }
        // Step to the next segment, or finish.
        if j < len {
            proof {
                assert(rem.skip(j - pos + 1) =~= body@.skip(j + 1));
            }
            pos = j + 1;
        } else {
            finished = true;
        }
    }
    match (name, email) {
        (Some(n), Some(e)) => Ok(FormData { email: e, name: n }),
        (None, _) => Err(FormError::MissingName),
        (_, None) => Err(FormError::MissingEmail),
    }
}

} // verus!
