//! Splitting one line of delimited text into its fields.
//!
//! Fields are separated by commas. A field that begins with a double quote
//! runs to the first quote that is directly followed by a comma; embedded
//! quotes are not unescaped. A quoted field at the very end of a line, with
//! no comma after its closing quote, is a known limitation and is reported
//! as an error.

use vstd::prelude::*;
use vstd::string::StringSliceAdditionalSpecFns;

verus! {

pub const COMMA: u8 = 44u8;

pub const QUOTE: u8 = 34u8;

/// Why a line could not be split.
#[derive(Clone, Copy, Debug, PartialEq, Eq, Structural)]
pub enum TokenError {
    /// The line is not well-formed UTF-8.
    InvalidUtf8,
    /// A quoted field is not closed by a quote followed by a comma.
    UnterminatedQuote,
}

/// The index of the first comma at or after `k`, or the line's length.
pub open spec fn plain_end(line: Seq<u8>, k: int) -> int
    decreases line.len() - k,
{
    if k >= line.len() {
        line.len() as int
    } else if line[k] == COMMA {
        k
    } else {
        plain_end(line, k + 1)
    }
}

/// The index of the first quote at or after `k` that a comma follows.
pub open spec fn quote_end(line: Seq<u8>, k: int) -> Option<int>
    decreases line.len() - k,
{
    if k + 1 >= line.len() {
        None
    } else if line[k] == QUOTE && line[k + 1] == COMMA {
        Some(k)
    } else {
        quote_end(line, k + 1)
    }
}

/// The field that starts at `pos` and the cursor position after it; `None`
/// where a quoted field has no terminator.
pub open spec fn field_at(line: Seq<u8>, pos: int) -> Option<(Seq<u8>, int)> {
    if line[pos] == QUOTE {
        match quote_end(line, pos + 1) {
            Some(k) => Some((line.subrange(pos + 1, k), k + 2)),
            None => None,
        }
    } else {
        let k = plain_end(line, pos);
        Some((line.subrange(pos, k), if k < line.len() { k + 1 } else { k }))
    }
}

/// The fields from `pos` to the end of the line, appended to `acc`.
pub open spec fn fields_from(line: Seq<u8>, pos: int, acc: Seq<Seq<u8>>) -> Option<Seq<Seq<u8>>>
    decreases line.len() - pos,
{
    if pos < 0 || pos >= line.len() {
        Some(acc)
    } else {
        // a field always moves the cursor forward, and never past the end
        // (see `lemma_field_advances`)
        let step = field_at(line, pos);
        if step is Some && pos < step.unwrap().1 <= line.len() {
            fields_from(line, step.unwrap().1, acc.push(step.unwrap().0))
        } else {
            None
        }
    }
}

/// All fields of a line of bytes, without regard to its encoding.
pub open spec fn fields_of(line: Seq<u8>) -> Option<Seq<Seq<u8>>> {
    fields_from(line, 0, Seq::empty())
}

/// What `tokenize` owes for a line.
pub open spec fn tokenize_spec(line: Seq<u8>) -> Result<Seq<Seq<u8>>, TokenError> {
    if !vstd::utf8::valid_utf8(line) {
        Err(TokenError::InvalidUtf8)
    } else {
        match fields_of(line) {
            Some(fields) => Ok(fields),
            None => Err(TokenError::UnterminatedQuote),
        }
    }
}

/// `fields` holds exactly the byte strings of `model`, in order.
pub open spec fn fields_match(fields: Seq<Vec<u8>>, model: Seq<Seq<u8>>) -> bool {
    &&& fields.len() == model.len()
    &&& forall|i: int| 0 <= i < fields.len() ==> (#[trigger] fields[i])@ == model[i]
}

pub proof fn lemma_plain_end_bounds(line: Seq<u8>, k: int)
    requires
        0 <= k <= line.len(),
    ensures
        k <= plain_end(line, k) <= line.len(),
    decreases line.len() - k,
{
    if k < line.len() && line[k] != COMMA {
        lemma_plain_end_bounds(line, k + 1);
    }
}

pub proof fn lemma_quote_end_bounds(line: Seq<u8>, k: int)
    requires
        0 <= k,
    ensures
        quote_end(line, k) matches Some(e) ==> k <= e && e + 1 < line.len(),
    decreases line.len() - k,
{
    if k + 1 < line.len() && !(line[k] == QUOTE && line[k + 1] == COMMA) {
        lemma_quote_end_bounds(line, k + 1);
    }
}

/// Every field consumes at least one byte and ends inside the line.
pub proof fn lemma_field_advances(line: Seq<u8>, pos: int)
    requires
        0 <= pos < line.len(),
    ensures
        field_at(line, pos) matches Some((value, next)) ==> pos < next <= line.len(),
{
    lemma_plain_end_bounds(line, pos);
    lemma_quote_end_bounds(line, pos + 1);
}

/// `std::str::from_utf8`: the text that the bytes encode, where they are
/// well-formed UTF-8, and nothing where they are not. The text has the same
/// bytes.
#[verifier::external_body]
pub(crate) fn utf8_text(bytes: &[u8]) -> (r: Option<&str>)
    ensures
        r is Some <==> vstd::utf8::valid_utf8(bytes@),
        r matches Some(s) ==> s.spec_bytes() == bytes@,
{
    match std::str::from_utf8(bytes) {
        Ok(s) => Some(s),
        Err(_) => None,
    }
}

/// A copy of the bytes of `line` from `start` up to `end`.
pub fn copy_range(line: &[u8], start: usize, end: usize) -> (r: Vec<u8>)
    requires
        start <= end <= line@.len(),
    ensures
        r@ == line@.subrange(start as int, end as int),
{
    let mut out: Vec<u8> = Vec::new();
    let mut i: usize = start;
    while i < end
        invariant
            start <= i <= end <= line@.len(),
            out@ == line@.subrange(start as int, i as int),
        decreases end - i,
    {
        out.push(line[i]);
        i = i + 1;
    }
    out
}

/// A cursor over one line that hands out its fields one by one.
pub struct FieldTokenizer<'a> {
    line: &'a [u8],
    pos: usize,
}

impl<'a> FieldTokenizer<'a> {
    /// The line being split.
    pub closed spec fn line(&self) -> Seq<u8> {
        self.line@
    }

    /// The position of the next unread byte.
    pub closed spec fn cursor(&self) -> int {
        self.pos as int
    }

    /// The line is well-formed UTF-8, and the cursor lies inside it or at
    /// its end.
    pub closed spec fn wf(&self) -> bool {
        self.pos <= self.line@.len() && vstd::utf8::valid_utf8(self.line@)
    }

    /// A tokenizer at the start of `line`; an error where the line is not
    /// well-formed UTF-8.
    pub fn new(line: &'a [u8]) -> (r: Result<Self, TokenError>)
        ensures
            match r {
                Ok(t) => vstd::utf8::valid_utf8(line@) && t.wf() && t.line() == line@ && t.cursor()
                    == 0,
                Err(e) => !vstd::utf8::valid_utf8(line@) && e == TokenError::InvalidUtf8,
            },
    {
        if utf8_text(line).is_none() {
            return Err(TokenError::InvalidUtf8);
        }
        Ok(FieldTokenizer { line, pos: 0 })
    }

    /// The next field, or `Ok(None)` once the whole line is consumed. On an
    /// error the cursor stays where it was.
    pub fn next_field(&mut self) -> (r: Result<Option<Vec<u8>>, TokenError>)
        requires
            old(self).wf(),
        ensures
            final(self).wf(),
            final(self).line() == old(self).line(),
            old(self).cursor() >= old(self).line().len() ==> r == Ok::<
                Option<Vec<u8>>,
                TokenError,
            >(None) && final(self).cursor() == old(self).cursor(),
            old(self).cursor() < old(self).line().len() ==> match field_at(
                old(self).line(),
                old(self).cursor(),
            ) {
                Some((value, next)) => r matches Ok(Some(f)) && f@ == value && final(self).cursor()
                    == next,
                None => r == Err::<Option<Vec<u8>>, TokenError>(TokenError::UnterminatedQuote)
                    && final(self).cursor() == old(self).cursor(),
            },
    {
        let line = self.line;
        let n: usize = line.len();
        let pos: usize = self.pos;
        if pos >= n {
            return Ok(None);
        }
        if line[pos] == QUOTE {
            let mut k: usize = pos + 1;
            while n - k > 1 && !(line[k] == QUOTE && line[k + 1] == COMMA)
                invariant
                    pos < k <= n,
                    n == line@.len(),
                    quote_end(line@, pos + 1) == quote_end(line@, k as int),
                decreases n - k,
            {
                k = k + 1;
            }
            if n - k > 1 {
                let field = copy_range(line, pos + 1, k);
                self.pos = k + 2;
                Ok(Some(field))
            } else {
                Err(TokenError::UnterminatedQuote)
            }
        } else {
            let mut k: usize = pos;
            while k < n && line[k] != COMMA
                invariant
                    pos <= k <= n,
                    n == line@.len(),
                    plain_end(line@, pos as int) == plain_end(line@, k as int),
                decreases n - k,
            {
                k = k + 1;
            }
            let field = copy_range(line, pos, k);
            self.pos = if k < n { k + 1 } else { k };
            Ok(Some(field))
        }
    }
}

/// Splits a whole line into its fields.
pub fn tokenize(line: &[u8]) -> (r: Result<Vec<Vec<u8>>, TokenError>)
    ensures
        match tokenize_spec(line@) {
            Ok(model) => r matches Ok(fields) && fields_match(fields@, model),
            Err(e) => r == Err::<Vec<Vec<u8>>, TokenError>(e),
        },
{
    let mut tok = match FieldTokenizer::new(line) {
        Ok(tok) => tok,
        Err(e) => {
            return Err(e);
        },
    };
    let mut out: Vec<Vec<u8>> = Vec::new();
    let ghost mut model: Seq<Seq<u8>> = Seq::empty();
    loop
        invariant
            tok.wf(),
            tok.line() == line@,
            fields_match(out@, model),
            fields_from(line@, tok.cursor(), model) == fields_of(line@),
        decreases line@.len() - tok.cursor(),
    {
        let ghost before = tok.cursor();
        proof {
            if before < line@.len() {
                lemma_field_advances(line@, before);
            }
        }
        match tok.next_field() {
            Err(e) => {
                return Err(e);
            },
            Ok(None) => {
                return Ok(out);
            },
            Ok(Some(field)) => {
                proof {
                    model = model.push(field@);
                }
                out.push(field);
            },
        }
    }
}

} // verus!
