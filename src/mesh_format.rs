use vstd::prelude::*;

verus! {

/// The character range `[start, end)` of one token of the mesh text.
#[derive(Clone, Copy, Debug, PartialEq, Eq, Structural)]
pub struct Span {
    pub start: usize,
    pub end: usize,
}

/// Why a mesh text was rejected.
#[derive(Clone, Copy, Debug, PartialEq, Eq, Structural)]
pub enum MeshError {
    /// The text ends before a line that the counts call for.
    MissingLine,
    /// A count line is not an unsigned number that fits in `usize`.
    BadCount,
    /// A vertex or triangle line holds fewer tokens than it needs.
    MissingField,
    /// A triangle index is not an unsigned number that fits in `u32`.
    BadIndex,
}

/// Number of tokens on a vertex line: position, normal and texture
/// coordinates.
pub const VERTEX_FIELDS: usize = 8;

/// Number of indices on a triangle line.
pub const TRIANGLE_FIELDS: usize = 3;

/// Characters that separate tokens within a line: those that Rust's
/// `char::is_whitespace` accepts, the newline aside, which ends the line.
pub open spec fn is_blank(c: char) -> bool {
    let u = c as u32;
    (9 <= u <= 13 && u != 10) || u == 32 || u == 0x85 || u == 0xA0 || u == 0x1680 || (0x2000 <= u
        <= 0x200A) || u == 0x2028 || u == 0x2029 || u == 0x202F || u == 0x205F || u == 0x3000
}

pub open spec fn is_digit(c: char) -> bool {
    48 <= c as u32 <= 57
}

fn is_blank_exec(c: char) -> (r: bool)
    ensures
        r == is_blank(c),
{
    let u = c as u32;
    (9 <= u && u <= 13 && u != 10) || u == 32 || u == 0x85 || u == 0xA0 || u == 0x1680 || (0x2000
        <= u && u <= 0x200A) || u == 0x2028 || u == 0x2029 || u == 0x202F || u == 0x205F || u
        == 0x3000
}

/// End of the line that starts at `i`: the first newline at or after `i`, or
/// the end of the text.
pub open spec fn line_end(s: Seq<char>, i: int) -> int
    decreases s.len() - i,
{
    if i >= s.len() {
        s.len() as int
    } else if s[i] == '\n' {
        i
    } else {
        line_end(s, i + 1)
    }
}

/// The first non-blank position in `[i, e)`, or `e`.
pub open spec fn skip_blanks(s: Seq<char>, i: int, e: int) -> int
    decreases e - i,
{
    if i >= e {
        e
    } else if !is_blank(s[i]) {
        i
    } else {
        skip_blanks(s, i + 1, e)
    }
}

/// The first blank position in `[i, e)`, or `e`.
pub open spec fn skip_token(s: Seq<char>, i: int, e: int) -> int
    decreases e - i,
{
    if i >= e {
        e
    } else if is_blank(s[i]) {
        i
    } else {
        skip_token(s, i + 1, e)
    }
}

fn line_end_exec(s: &[char], i: usize) -> (r: usize)
    requires
        i <= s@.len(),
    ensures
        r == line_end(s@, i as int),
        i <= r <= s@.len(),
{
    let mut j = i;
    while j < s.len() && s[j] != '\n'
        invariant
            i <= j <= s@.len(),
            line_end(s@, i as int) == line_end(s@, j as int),
        decreases s@.len() - j,
    {
        j = j + 1;
    }
    j
}

fn skip_blanks_exec(s: &[char], i: usize, e: usize) -> (r: usize)
    requires
        i <= e <= s@.len(),
    ensures
        r == skip_blanks(s@, i as int, e as int),
        i <= r <= e,
{
    let mut j = i;
    while j < e && is_blank_exec(s[j])
        invariant
            i <= j <= e <= s@.len(),
            skip_blanks(s@, i as int, e as int) == skip_blanks(s@, j as int, e as int),
        decreases e - j,
    {
        j = j + 1;
    }
    j
}

fn skip_token_exec(s: &[char], i: usize, e: usize) -> (r: usize)
    requires
        i <= e <= s@.len(),
    ensures
        r == skip_token(s@, i as int, e as int),
        i <= r <= e,
{
    let mut j = i;
    while j < e && !is_blank_exec(s[j])
        invariant
            i <= j <= e <= s@.len(),
            skip_token(s@, i as int, e as int) == skip_token(s@, j as int, e as int),
        decreases e - j,
    {
        j = j + 1;
    }
    j
}

/// Value of the decimal digits in `[a, b)`.
pub open spec fn digits_value(s: Seq<char>, a: int, b: int) -> int
    decreases b - a,
{
    if b <= a {
        0
    } else {
        digits_value(s, a, b - 1) * 10 + (s[b - 1] as u32 - 48)
    }
}

pub open spec fn all_digits(s: Seq<char>, a: int, b: int) -> bool {
    forall|j: int| a <= j < b ==> is_digit(#[trigger] s[j])
}

/// `[a, b)` is a nonempty run of decimal digits whose value is at most `max`.
pub open spec fn decimal_in(s: Seq<char>, a: int, b: int, max: int) -> bool {
    a < b && all_digits(s, a, b) && digits_value(s, a, b) <= max
}

proof fn lemma_digits_nonneg(s: Seq<char>, a: int, b: int)
    requires
        a <= b <= s.len(),
        all_digits(s, a, b),
    ensures
        0 <= digits_value(s, a, b),
    decreases b - a,
{
    if a < b {
        lemma_digits_nonneg(s, a, b - 1);
        assert(is_digit(s[b - 1]));
    }
}

proof fn lemma_digits_monotone(s: Seq<char>, a: int, j: int, b: int)
    requires
        a <= j <= b <= s.len(),
        all_digits(s, a, b),
    ensures
        0 <= digits_value(s, a, j) <= digits_value(s, a, b),
    decreases b - j,
{
    if j < b {
        lemma_digits_monotone(s, a, j, b - 1);
        assert(is_digit(s[b - 1]));
    } else {
        lemma_digits_nonneg(s, a, j);
    }
}

/// Reads the decimal number in `[a, b)`, if it is one and at most `max`.
fn parse_decimal(s: &[char], a: usize, b: usize, max: u64) -> (r: Option<u64>)
    requires
        a <= b <= s@.len(),
    ensures
        r is Some <==> decimal_in(s@, a as int, b as int, max as int),
        r is Some ==> r->Some_0 == digits_value(s@, a as int, b as int),
{
    if a >= b {
        return None;
    }
    let mut acc: u64 = 0;
    let mut j = a;
    while j < b
        invariant
            a <= j <= b <= s@.len(),
            all_digits(s@, a as int, j as int),
            acc == digits_value(s@, a as int, j as int),
            acc <= max,
        decreases b - j,
    {
        let c = s[j] as u32;
        if c < 48 || c > 57 {
            return None;
        }
        let next: u128 = acc as u128 * 10 + (c - 48) as u128;
        assert(next == digits_value(s@, a as int, j + 1));
        if next > max as u128 {
            proof {
                if all_digits(s@, a as int, b as int) {
                    lemma_digits_monotone(s@, a as int, j + 1, b as int);
                }
            }
            return None;
        }
        acc = next as u64;
        j = j + 1;
    }
    Some(acc)
}

/// Where the digits of the number in `[a, b)` start: after a leading `+`,
/// if there is one.
pub open spec fn digits_start(s: Seq<char>, a: int, b: int) -> int {
    if a < b && s[a] == '+' {
        a + 1
    } else {
        a
    }
}

/// `[a, b)` is an unsigned number as Rust's integer parsing reads it: an
/// optional `+`, then one or more decimal digits, of value at most `max`.
pub open spec fn number_in(s: Seq<char>, a: int, b: int, max: int) -> bool {
    decimal_in(s, digits_start(s, a, b), b, max)
}

/// The value of the number in `[a, b)`.
pub open spec fn number_value(s: Seq<char>, a: int, b: int) -> int {
    digits_value(s, digits_start(s, a, b), b)
}

/// Reads the number in `[a, b)`, if it is one and at most `max`.
fn parse_number(s: &[char], a: usize, b: usize, max: u64) -> (r: Option<u64>)
    requires
        a <= b <= s@.len(),
    ensures
        r is Some <==> number_in(s@, a as int, b as int, max as int),
        r is Some ==> r->Some_0 == number_value(s@, a as int, b as int),
{
    let start = if a < b && s[a] == '+' {
        a + 1
    } else {
        a
    };
    parse_decimal(s, start, b, max)
}

/// The first `k` tokens of `[i, e)`, or `None` when it holds fewer.
pub open spec fn take_tokens(s: Seq<char>, i: int, e: int, k: nat) -> Option<Seq<Span>>
    decreases k,
{
    if k == 0 {
        Some(Seq::empty())
    } else {
        let a = skip_blanks(s, i, e);
        if a >= e {
            None
        } else {
            let b = skip_token(s, a, e);
            match take_tokens(s, b, e, (k - 1) as nat) {
                Some(t) => Some(seq![Span { start: a as usize, end: b as usize }] + t),
                None => None,
            }
        }
    }
}

/// `acc` followed by the tokens of `r`, if there are any.
pub open spec fn prepend_spans(acc: Seq<Span>, r: Option<Seq<Span>>) -> Option<Seq<Span>> {
    match r {
        Some(t) => Some(acc + t),
        None => None,
    }
}

/// Every span is a nonempty range of the text.
pub open spec fn spans_in(s: Seq<char>, t: Seq<Span>) -> bool {
    forall|k: int| 0 <= k < t.len() ==> span_in(s, #[trigger] t[k])
}

/// The span is a nonempty range of the text.
pub open spec fn span_in(s: Seq<char>, sp: Span) -> bool {
    sp.start < sp.end <= s.len()
}

proof fn lemma_skip_bounds(s: Seq<char>, i: int, e: int)
    requires
        i <= e,
    ensures
        i <= skip_blanks(s, i, e) <= e,
        i <= skip_token(s, i, e) <= e,
        i < e && !is_blank(s[i]) ==> skip_token(s, i, e) > i,
    decreases e - i,
{
    if i < e {
        lemma_skip_bounds(s, i + 1, e);
    }
}

proof fn lemma_take_tokens_shape(s: Seq<char>, i: int, e: int, k: nat)
    requires
        0 <= i <= e <= s.len(),
        s.len() <= usize::MAX,
    ensures
        take_tokens(s, i, e, k) is Some ==> take_tokens(s, i, e, k)->Some_0.len() == k
            && spans_in(s, take_tokens(s, i, e, k)->Some_0),
    decreases k,
{
    if k > 0 {
        let a = skip_blanks(s, i, e);
        lemma_skip_bounds(s, i, e);
        if a < e {
            let b = skip_token(s, a, e);
            lemma_skip_bounds(s, a, e);
            lemma_skip_blanks_lands(s, i, e);
            lemma_take_tokens_shape(s, b, e, (k - 1) as nat);
            if take_tokens(s, i, e, k) is Some {
                let t = take_tokens(s, b, e, (k - 1) as nat)->Some_0;
                let all = take_tokens(s, i, e, k)->Some_0;
                assert(all == seq![Span { start: a as usize, end: b as usize }] + t);
                assert forall|q: int| 0 <= q < all.len() implies span_in(s, #[trigger] all[q]) by {
                    if q > 0 {
                        assert(all[q] == t[q - 1]);
                    } else {
                        assert(all[q] == Span { start: a as usize, end: b as usize });
                    }
                }
            }
        }
    }
}

proof fn lemma_skip_blanks_lands(s: Seq<char>, i: int, e: int)
    requires
        i <= e,
    ensures
        skip_blanks(s, i, e) < e ==> !is_blank(s[skip_blanks(s, i, e)]),
    decreases e - i,
{
    if i < e {
        lemma_skip_blanks_lands(s, i + 1, e);
    }
}

fn take_tokens_exec(s: &[char], i: usize, e: usize, k: usize) -> (r: Option<Vec<Span>>)
    requires
        i <= e <= s@.len(),
    ensures
        r is Some <==> take_tokens(s@, i as int, e as int, k as nat) is Some,
        r is Some ==> r->Some_0@ == take_tokens(s@, i as int, e as int, k as nat)->Some_0,
{
    let mut out: Vec<Span> = Vec::new();
    let mut pos = i;
    let mut t: usize = 0;
    while t < k
        invariant
            i <= pos <= e <= s@.len(),
            t <= k,
            take_tokens(s@, i as int, e as int, k as nat) == prepend_spans(
                out@,
                take_tokens(s@, pos as int, e as int, (k - t) as nat),
            ),
        decreases k - t,
    {
        let a = skip_blanks_exec(s, pos, e);
        if a >= e {
            return None;
        }
        let b = skip_token_exec(s, a, e);
        let sp = Span { start: a, end: b };
        proof {
            let rest = take_tokens(s@, b as int, e as int, (k - t - 1) as nat);
            assert(take_tokens(s@, pos as int, e as int, (k - t) as nat) == match rest {
                Some(x) => Some(seq![sp] + x),
                None => None::<Seq<Span>>,
            });
            if rest is Some {
                assert(out@ + (seq![sp] + rest->Some_0) =~= out@.push(sp) + rest->Some_0);
            }
        }
        out.push(sp);
        pos = b;
        t = t + 1;
    }
    assert(out@ + Seq::<Span>::empty() =~= out@);
    Some(out)
}

/// Where the line after the one ending at `e` starts.
pub open spec fn next_line(s: Seq<char>, e: int) -> int {
    if e < s.len() {
        e + 1
    } else {
        e
    }
}

/// The count on the line that starts at `i`, and where the next line starts.
/// A carriage return before the line's newline is not part of the line.
pub open spec fn count_line(s: Seq<char>, i: int) -> Result<(int, int), MeshError> {
    if i >= s.len() {
        Err(MeshError::MissingLine)
    } else {
        let e = line_end(s, i);
        let c = if e > i && e < s.len() && s[e - 1] == '\r' {
            e - 1
        } else {
            e
        };
        if number_in(s, i, c, usize::MAX as int) {
            Ok((number_value(s, i, c), next_line(s, e)))
        } else {
            Err(MeshError::BadCount)
        }
    }
}

/// The tokens of `n` vertex lines from `i` on, `VERTEX_FIELDS` per line, and
/// where the line after them starts.
pub open spec fn vertex_lines(s: Seq<char>, i: int, n: nat) -> Result<(Seq<Span>, int), MeshError>
    decreases n,
{
    if n == 0 {
        Ok((Seq::empty(), i))
    } else if i >= s.len() {
        Err(MeshError::MissingLine)
    } else {
        let e = line_end(s, i);
        match take_tokens(s, i, e, VERTEX_FIELDS as nat) {
            None => Err(MeshError::MissingField),
            Some(t) => match vertex_lines(s, next_line(s, e), (n - 1) as nat) {
                Ok((r, p)) => Ok((t + r, p)),
                Err(x) => Err(x),
            },
        }
    }
}

/// The index in a token, if it is a number that fits in `u32`.
pub open spec fn token_index(s: Seq<char>, sp: Span) -> Option<u32> {
    if number_in(s, sp.start as int, sp.end as int, u32::MAX as int) {
        Some(number_value(s, sp.start as int, sp.end as int) as u32)
    } else {
        None
    }
}

/// The three indices named by the first three tokens of a triangle line.
pub open spec fn triangle_indices(s: Seq<char>, t: Seq<Span>) -> Option<Seq<u32>> {
    match (token_index(s, t[0]), token_index(s, t[1]), token_index(s, t[2])) {
        (Some(a), Some(b), Some(c)) => Some(seq![a, b, c]),
        _ => None,
    }
}

/// The indices of `m` triangle lines from `i` on, and where the line after
/// them starts.
pub open spec fn index_lines(s: Seq<char>, i: int, m: nat) -> Result<(Seq<u32>, int), MeshError>
    decreases m,
{
    if m == 0 {
        Ok((Seq::empty(), i))
    } else if i >= s.len() {
        Err(MeshError::MissingLine)
    } else {
        let e = line_end(s, i);
        match take_tokens(s, i, e, TRIANGLE_FIELDS as nat) {
            None => Err(MeshError::MissingField),
            Some(t) => match triangle_indices(s, t) {
                None => Err(MeshError::BadIndex),
                Some(v) => match index_lines(s, next_line(s, e), (m - 1) as nat) {
                    Ok((r, p)) => Ok((v + r, p)),
                    Err(x) => Err(x),
                },
            },
        }
    }
}

/// The mesh text: a vertex count line, that many vertex lines, a triangle
/// count line and that many triangle lines. The result is the vertex tokens,
/// `VERTEX_FIELDS` per vertex, and the triangle indices, three per triangle.
pub open spec fn mesh_spec(s: Seq<char>) -> Result<(Seq<Span>, Seq<u32>), MeshError> {
    match count_line(s, 0) {
        Err(x) => Err(x),
        Ok((n, p1)) => match vertex_lines(s, p1, n as nat) {
            Err(x) => Err(x),
            Ok((v, p2)) => match count_line(s, p2) {
                Err(x) => Err(x),
                Ok((m, p3)) => match index_lines(s, p3, m as nat) {
                    Err(x) => Err(x),
                    Ok((ix, _)) => Ok((v, ix)),
                },
            },
        },
    }
}

fn next_line_exec(s: &[char], e: usize) -> (r: usize)
    requires
        e <= s@.len(),
    ensures
        r == next_line(s@, e as int),
        r <= s@.len(),
{
    if e < s.len() {
        e + 1
    } else {
        e
    }
}

fn count_line_exec(s: &[char], i: usize) -> (r: Result<(usize, usize), MeshError>)
    requires
        i <= s@.len(),
    ensures
        match count_line(s@, i as int) {
            Ok((n, p)) => r is Ok && r->Ok_0.0 == n && r->Ok_0.1 == p && p <= s@.len(),
            Err(x) => r == Err::<(usize, usize), MeshError>(x),
        },
{
    if i >= s.len() {
        return Err(MeshError::MissingLine);
    }
    let e = line_end_exec(s, i);
    let c = if e > i && e < s.len() && s[e - 1] == '\r' {
        e - 1
    } else {
        e
    };
    match parse_number(s, i, c, usize::MAX as u64) {
        Some(n) => Ok((n as usize, next_line_exec(s, e))),
        None => Err(MeshError::BadCount),
    }
}

/// `acc` followed by the tokens of `r`, unless `r` is an error.
pub open spec fn prepend_result<T>(acc: Seq<T>, r: Result<(Seq<T>, int), MeshError>) -> Result<
    (Seq<T>, int),
    MeshError,
> {
    match r {
        Ok((x, p)) => Ok((acc + x, p)),
        Err(e) => Err(e),
    }
}

fn vertex_lines_exec(s: &[char], i: usize, n: usize) -> (r: Result<(Vec<Span>, usize), MeshError>)
    requires
        i <= s@.len(),
    ensures
        match vertex_lines(s@, i as int, n as nat) {
            Ok((v, p)) => r is Ok && r->Ok_0.0@ == v && r->Ok_0.1 == p && p <= s@.len(),
            Err(x) => r == Err::<(Vec<Span>, usize), MeshError>(x),
        },
{
    let mut out: Vec<Span> = Vec::new();
    let mut pos = i;
    let mut t: usize = 0;
    while t < n
        invariant
            pos <= s@.len(),
            t <= n,
            vertex_lines(s@, i as int, n as nat) == prepend_result(
                out@,
                vertex_lines(s@, pos as int, (n - t) as nat),
            ),
        decreases n - t,
    {
        if pos >= s.len() {
            return Err(MeshError::MissingLine);
        }
        let e = line_end_exec(s, pos);
        match take_tokens_exec(s, pos, e, VERTEX_FIELDS) {
            None => {
                return Err(MeshError::MissingField);
            },
            Some(fields) => {
                let next = next_line_exec(s, e);
                proof {
                    let rest = vertex_lines(s@, next as int, (n - t - 1) as nat);
                    if rest is Ok {
                        let (x, q) = rest->Ok_0;
                        assert(out@ + (fields@ + x) =~= (out@ + fields@) + x);
                    }
                }
                let mut fields = fields;
                out.append(&mut fields);
                pos = next;
            },
        }
        t = t + 1;
    }
    assert(out@ + Seq::<Span>::empty() =~= out@);
    Ok((out, pos))
}

fn token_index_exec(s: &[char], sp: Span) -> (r: Option<u32>)
    requires
        sp.start <= sp.end <= s@.len(),
    ensures
        r == token_index(s@, sp),
{
    match parse_number(s, sp.start, sp.end, u32::MAX as u64) {
        Some(v) => Some(v as u32),
        None => None,
    }
}

fn index_lines_exec(s: &[char], i: usize, m: usize) -> (r: Result<(Vec<u32>, usize), MeshError>)
    requires
        i <= s@.len(),
    ensures
        match index_lines(s@, i as int, m as nat) {
            Ok((v, p)) => r is Ok && r->Ok_0.0@ == v && r->Ok_0.1 == p && p <= s@.len(),
            Err(x) => r == Err::<(Vec<u32>, usize), MeshError>(x),
        },
{
    let mut out: Vec<u32> = Vec::new();
    let mut pos = i;
    let mut t: usize = 0;
    while t < m
        invariant
            pos <= s@.len(),
            t <= m,
            index_lines(s@, i as int, m as nat) == prepend_result(
                out@,
                index_lines(s@, pos as int, (m - t) as nat),
            ),
        decreases m - t,
    {
        if pos >= s.len() {
            return Err(MeshError::MissingLine);
        }
        let e = line_end_exec(s, pos);
        match take_tokens_exec(s, pos, e, TRIANGLE_FIELDS) {
            None => {
                return Err(MeshError::MissingField);
            },
            Some(fields) => {
                proof {
                    lemma_take_tokens_shape(s@, pos as int, e as int, TRIANGLE_FIELDS as nat);
                    assert(span_in(s@, fields@[0]));
                    assert(span_in(s@, fields@[1]));
                    assert(span_in(s@, fields@[2]));
                }
                let a = token_index_exec(s, fields[0]);
                let b = token_index_exec(s, fields[1]);
                let c = token_index_exec(s, fields[2]);
                match (a, b, c) {
                    (Some(a), Some(b), Some(c)) => {
                        let next = next_line_exec(s, e);
                        proof {
                            let v = seq![a, b, c];
                            assert(triangle_indices(s@, fields@) == Some(v));
                            let rest = index_lines(s@, next as int, (m - t - 1) as nat);
                            if rest is Ok {
                                let (x, q) = rest->Ok_0;
                                assert(out@ + (v + x) =~= out@.push(a).push(b).push(c) + x);
                            }
                        }
                        out.push(a);
                        out.push(b);
                        out.push(c);
                        pos = next;
                    },
                    _ => {
                        return Err(MeshError::BadIndex);
                    },
                }
            },
        }
        t = t + 1;
    }
    assert(out@ + Seq::<u32>::empty() =~= out@);
    Ok((out, pos))
}

proof fn lemma_vertex_lines_shape(s: Seq<char>, i: int, n: nat)
    requires
        0 <= i <= s.len(),
        s.len() <= usize::MAX,
    ensures
        vertex_lines(s, i, n) is Ok ==> vertex_lines(s, i, n)->Ok_0.0.len() == VERTEX_FIELDS * n
            && spans_in(s, vertex_lines(s, i, n)->Ok_0.0),
    decreases n,
{
    if n > 0 && i < s.len() {
        let e = line_end(s, i);
        lemma_line_end_bounds(s, i);
        lemma_take_tokens_shape(s, i, e, VERTEX_FIELDS as nat);
        lemma_vertex_lines_shape(s, next_line(s, e), (n - 1) as nat);
        if vertex_lines(s, i, n) is Ok {
            let t = take_tokens(s, i, e, VERTEX_FIELDS as nat)->Some_0;
            let r = vertex_lines(s, next_line(s, e), (n - 1) as nat)->Ok_0.0;
            let all = vertex_lines(s, i, n)->Ok_0.0;
            assert(all == t + r);
            assert(VERTEX_FIELDS * n == VERTEX_FIELDS + VERTEX_FIELDS * (n - 1)) by (nonlinear_arith)
                requires
                    n > 0,
            ;
            assert forall|q: int| 0 <= q < all.len() implies span_in(s, #[trigger] all[q]) by {
                if q < t.len() {
                    assert(all[q] == t[q]);
                } else {
                    assert(all[q] == r[q - t.len()]);
                }
            }
        }
    }
}

proof fn lemma_line_end_bounds(s: Seq<char>, i: int)
    requires
        0 <= i <= s.len(),
    ensures
        i <= line_end(s, i) <= s.len(),
    decreases s.len() - i,
{
    if i < s.len() {
        lemma_line_end_bounds(s, i + 1);
    }
}

proof fn lemma_index_lines_shape(s: Seq<char>, i: int, m: nat)
    requires
        0 <= i <= s.len(),
    ensures
        index_lines(s, i, m) is Ok ==> index_lines(s, i, m)->Ok_0.0.len() == TRIANGLE_FIELDS * m,
    decreases m,
{
    if m > 0 && i < s.len() {
        let e = line_end(s, i);
        lemma_line_end_bounds(s, i);
        lemma_index_lines_shape(s, next_line(s, e), (m - 1) as nat);
        assert(TRIANGLE_FIELDS * m == TRIANGLE_FIELDS + TRIANGLE_FIELDS * (m - 1)) by (nonlinear_arith)
            requires
                m > 0,
        ;
    }
}

/// A parsed mesh text: the character ranges of the vertex tokens, `VERTEX_FIELDS`
/// per vertex in file order, and the triangle indices, three per triangle.
pub struct MeshText {
    pub vertex_fields: Vec<Span>,
    pub indices: Vec<u32>,
}

impl MeshText {
    /// Number of vertices.
    pub fn vertex_count(&self) -> (r: usize)
        ensures
            r == self.vertex_fields.len() / VERTEX_FIELDS,
    {
        self.vertex_fields.len() / VERTEX_FIELDS
    }

    /// Number of triangles.
    pub fn triangle_count(&self) -> (r: usize)
        ensures
            r == self.indices.len() / TRIANGLE_FIELDS,
    {
        self.indices.len() / TRIANGLE_FIELDS
    }
}

/// Parses a mesh text: a line with the vertex count `n`, `n` lines of at
/// least `VERTEX_FIELDS` whitespace-separated tokens, a line with the
/// triangle count `m` and `m` lines of at least three unsigned indices.
/// Lines end at a newline, and a carriage return before it is dropped.
/// Tokens beyond those a line needs, and lines after the last triangle, are
/// ignored. Vertex tokens are located, not read: their character ranges are
/// returned for the caller to convert.
pub fn parse_mesh(text: &[char]) -> (r: Result<MeshText, MeshError>)
    ensures
        match mesh_spec(text@) {
            Ok((v, ix)) => r is Ok && r->Ok_0.vertex_fields@ == v && r->Ok_0.indices@ == ix,
            Err(x) => r is Err && r->Err_0 == x,
        },
        r is Ok ==> spans_in(text@, r->Ok_0.vertex_fields@),
        r is Ok ==> r->Ok_0.vertex_fields.len() % VERTEX_FIELDS == 0,
        r is Ok ==> r->Ok_0.indices.len() % TRIANGLE_FIELDS == 0,
{
    let text_len = text.len();
    let (n, p1) = match count_line_exec(text, 0) {
        Ok(x) => x,
        Err(e) => {
            return Err(e);
        },
    };
    let (vertex_fields, p2) = match vertex_lines_exec(text, p1, n) {
        Ok(x) => x,
        Err(e) => {
            return Err(e);
        },
    };
    proof {
        assert(text@.len() == text_len);
        lemma_vertex_lines_shape(text@, p1 as int, n as nat);
    }
    let (m, p3) = match count_line_exec(text, p2) {
        Ok(x) => x,
        Err(e) => {
            return Err(e);
        },
    };
    let (indices, _) = match index_lines_exec(text, p3, m) {
        Ok(x) => x,
        Err(e) => {
            return Err(e);
        },
    };
    proof {
        lemma_index_lines_shape(text@, p3 as int, m as nat);
        vstd::arithmetic::div_mod::lemma_mod_multiples_basic(n as int, VERTEX_FIELDS as int);
        vstd::arithmetic::div_mod::lemma_mod_multiples_basic(m as int, TRIANGLE_FIELDS as int);
    }
    Ok(MeshText { vertex_fields, indices })
}

} // verus!
