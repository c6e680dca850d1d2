use vstd::prelude::*;
use vstd::string::StrSliceExecFns;

verus! {

/// Why the head of an instance could not be read.
#[derive(Clone, Copy, Debug, PartialEq, Eq, Structural)]
pub enum LoadError {
    /// A field is not an unsigned decimal number that fits a `usize`.
    Unparsable,
    /// There are fewer than three fields.
    TooFewFields,
}

impl LoadError {
    /// The text that tells a user of the error.
    pub open spec fn text(self) -> Seq<char> {
        match self {
            LoadError::Unparsable => "cannot parse argument"@,
            LoadError::TooFewFields => "the first line of the file is not formatted properly"@,
        }
    }

    pub fn message(&self) -> (text: &'static str)
        ensures
            text@ == self.text(),
    {
        match self {
            LoadError::Unparsable => "cannot parse argument",
            LoadError::TooFewFields => "the first line of the file is not formatted properly",
        }
    }
}

/// The text without the white space at its two ends.
pub uninterp spec fn trimmed_text(text: Seq<char>) -> Seq<char>;

/// The pieces of a text between its commas: one more than it has commas.
pub open spec fn comma_fields(text: Seq<char>) -> Seq<Seq<char>>
    decreases text.len(),
{
    if text.len() == 0 {
        seq![Seq::<char>::empty()]
    } else {
        let before = comma_fields(text.drop_last());
        if text.last() == ',' {
            before.push(Seq::<char>::empty())
        } else {
            before.drop_last().push(before.last().push(text.last()))
        }
    }
}

pub open spec fn is_digit(c: char) -> bool {
    '0' <= c && c <= '9'
}

/// The number that a run of decimal digits writes, if it is one.
pub open spec fn digits_value(digits: Seq<char>) -> Option<nat>
    decreases digits.len(),
{
    if digits.len() == 0 {
        Some(0nat)
    } else {
        match digits_value(digits.drop_last()) {
            Some(v) => if is_digit(digits.last()) {
                Some(10 * v + (digits.last() as nat - '0' as nat) as nat)
            } else {
                None
            },
            None => None,
        }
    }
}

/// The `usize` that a text writes: decimal digits, at least one, after at
/// most one plus sign, of a value that fits.
pub open spec fn parsed_usize(text: Seq<char>) -> Option<usize> {
    let digits = if text.len() > 0 && text[0] == '+' {
        text.skip(1)
    } else {
        text
    };
    if digits.len() == 0 {
        None
    } else {
        match digits_value(digits) {
            Some(v) => if v <= usize::MAX {
                Some(v as usize)
            } else {
                None
            },
            None => None,
        }
    }
}

/// The texts that the vectors hold, in order.
pub open spec fn texts(fields: Seq<Vec<char>>) -> Seq<Seq<char>> {
    Seq::new(fields.len(), |i: int| fields[i]@)
}

/// Every field writes a `usize`.
pub open spec fn all_parse(fields: Seq<Seq<char>>) -> bool {
    forall|i: int| 0 <= i < fields.len() ==> parsed_usize(#[trigger] fields[i]).is_some()
}

/// The three leading numbers of a head line's fields. A field that is no
/// number is reported before a lack of fields.
pub open spec fn variables_of(fields: Seq<Seq<char>>) -> Result<(usize, usize, usize), LoadError> {
    if !all_parse(fields) {
        Err(LoadError::Unparsable)
    } else if fields.len() < 3 {
        Err(LoadError::TooFewFields)
    } else {
        Ok(
            (
                parsed_usize(fields[0]).unwrap(),
                parsed_usize(fields[1]).unwrap(),
                parsed_usize(fields[2]).unwrap(),
            ),
        )
    }
}

/// Calls `str::trim`. Trusted: the result is the trimmed text, a function of
/// the text alone.
#[verifier::external_body]
fn trimmed(s: &str) -> (t: &str)
    ensures
        t@ == trimmed_text(s@),
{
    s.trim()
}

/// The value of a run of digits bounds that of each of its prefixes, and a
/// prefix that is no run of digits leaves the whole none either.
pub proof fn lemma_digits_prefix(digits: Seq<char>, n: int)
    requires
        0 <= n <= digits.len(),
    ensures
        digits_value(digits).is_some() ==> digits_value(digits.take(n)).is_some()
            && digits_value(digits.take(n)).unwrap() <= digits_value(digits).unwrap(),
    decreases digits.len(),
{
    if n == digits.len() {
        assert(digits.take(n) =~= digits);
    } else {
        lemma_digits_prefix(digits.drop_last(), n);
        assert(digits.drop_last().take(n) =~= digits.take(n));
    }
}

/// The characters of a text, in order.
pub fn chars_of(s: &str) -> (chars: Vec<char>)
    ensures
        chars@ == s@,
{
    let n: usize = s.unicode_len();
    let mut chars: Vec<char> = Vec::new();
    let mut i: usize = 0;
    while i < n
        invariant
            i <= n,
            n == s@.len(),
            chars@ == s@.take(i as int),
        decreases n - i,
    {
        chars.push(s.get_char(i));
        i = i + 1;
        assert(chars@ =~= s@.take(i as int));
    }
    assert(s@.take(n as int) =~= s@);
    chars
}

/// The pieces of a text between its commas, in order, empty ones included.
pub fn split_commas(text: &Vec<char>) -> (fields: Vec<Vec<char>>)
    ensures
        texts(fields@) == comma_fields(text@),
{
    let mut fields: Vec<Vec<char>> = Vec::new();
    let mut current: Vec<char> = Vec::new();
    let mut i: usize = 0;
    assert(text@.take(0) =~= Seq::<char>::empty());
    assert(texts(fields@).push(current@) =~= comma_fields(text@.take(0)));
    while i < text.len()
        invariant
            i <= text.len(),
            texts(fields@).push(current@) == comma_fields(text@.take(i as int)),
        decreases text.len() - i,
    {
        let c: char = text[i];
        let ghost before = comma_fields(text@.take(i as int));
        let ghost done = texts(fields@);
        let ghost open = current@;
        assert(text@.take(i + 1).drop_last() =~= text@.take(i as int));
        assert(before.drop_last() =~= done);
        assert(before.last() == open);
        if c == ',' {
            fields.push(current);
            current = Vec::new();
            assert(texts(fields@) =~= done.push(open));
        } else {
            current.push(c);
            assert(texts(fields@) =~= done);
        }
        i = i + 1;
        assert(texts(fields@).push(current@) =~= comma_fields(text@.take(i as int)));
    }
    assert(text@.take(text.len() as int) =~= text@);
    let ghost done = texts(fields@);
    let ghost open = current@;
    fields.push(current);
    assert(texts(fields@) =~= done.push(open));
    fields
}

/// Reads an unsigned decimal number: digits, at least one, after at most one
/// plus sign, of a value that fits a `usize`.
pub fn parse_usize(text: &Vec<char>) -> (value: Option<usize>)
    ensures
        value == parsed_usize(text@),
{
    let start: usize = if text.len() > 0 && text[0] == '+' {
        1
    } else {
        0
    };
    if start == text.len() {
        return None;
    }
    let ghost digits = if start == 1 {
        text@.skip(1)
    } else {
        text@
    };
    let mut acc: usize = 0;
    let mut i: usize = start;
    assert(digits.take(0) =~= Seq::<char>::empty());
    while i < text.len()
        invariant
            start <= i <= text.len(),
            start <= 1,
            digits.len() == text.len() - start,
            digits.len() > 0,
            digits == if text@.len() > 0 && text@[0] == '+' {
                text@.skip(1)
            } else {
                text@
            },
            forall|j: int| 0 <= j < digits.len() ==> digits[j] == text[j + start],
            digits_value(digits.take(i - start)) == Some(acc as nat),
        decreases text.len() - i,
    {
        let c: char = text[i];
        let ghost k = i - start;
        proof {
            assert(digits.take(k + 1).drop_last() =~= digits.take(k));
            assert(digits.take(k + 1).last() == c);
            lemma_digits_prefix(digits, k + 1);
        }
        if c < '0' || c > '9' {
            return None;
        }
        let d: usize = (c as u32 - '0' as u32) as usize;
        assert(digits_value(digits.take(k + 1)) == Some(10 * (acc as nat) + (d as nat)));
        let tens = acc.checked_mul(10);
        if tens.is_none() {
            return None;
        }
        let sum = tens.unwrap().checked_add(d);
        if sum.is_none() {
            return None;
        }
        acc = sum.unwrap();
        i = i + 1;
    }
    assert(digits.take(digits.len() as int) =~= digits);
    Some(acc)
}

/// Reads the three leading numbers off the fields of a head line.
pub fn variables_of_fields(fields: &Vec<Vec<char>>) -> (result: Result<
    (usize, usize, usize),
    LoadError,
>)
    ensures
        result == variables_of(texts(fields@)),
{
    let mut v: Vec<usize> = Vec::new();
    let mut i: usize = 0;
    let ghost all = texts(fields@);
    while i < fields.len()
        invariant
            i <= fields.len(),
            all == texts(fields@),
            v.len() == i,
            forall|j: int| 0 <= j < i ==> parsed_usize(#[trigger] all[j]) == Some(v[j]),
        decreases fields.len() - i,
    {
        assert(all[i as int] == fields[i as int]@);
        match parse_usize(&fields[i]) {
            Some(value) => {
                v.push(value);
            },
            None => {
                return Err(LoadError::Unparsable);
            },
        }
        i = i + 1;
    }
    if v.len() < 3 {
        return Err(LoadError::TooFewFields);
    }
    Ok((v[0], v[1], v[2]))
}

/// Reads `number of items, weight limit, size limit` off the head line of an
/// instance: the line is trimmed and split at its commas, and every field
/// must write a `usize`.
pub fn get_first_line_variables(s: &str) -> (result: Result<(usize, usize, usize), LoadError>)
    ensures
        result == variables_of(comma_fields(trimmed_text(s@))),
{
    let text = chars_of(trimmed(s));
    let fields = split_commas(&text);
    variables_of_fields(&fields)
}

} // verus!
