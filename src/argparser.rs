use vstd::prelude::*;
use vstd::string::StringSliceAdditionalSpecFns;

verus! {

/// A point or a size in pixels.
#[derive(Clone, Copy, Debug, Default, PartialEq, Eq, Structural)]
pub struct Point {
    pub x: u32,
    pub y: u32,
}

/// A rectangle to keep of the captured image: its top-left corner and its size.
#[derive(Clone, Copy, Debug, Default, PartialEq, Eq, Structural)]
pub struct RegionSelect {
    pub top_left_origin: Point,
    pub size: Point,
}

impl RegionSelect {
    /// The rectangle lies inside an image of `width` by `height` pixels.
    pub open spec fn fits(&self, width: u32, height: u32) -> bool {
        &&& self.top_left_origin.x as int + self.size.x as int <= width as int
        &&& self.top_left_origin.y as int + self.size.y as int <= height as int
    }
}

/// Why a region string was refused.
#[derive(Clone, Copy, Debug, PartialEq, Eq, Structural)]
pub enum RegionError {
    /// The string is not of the form `[X,Y] WxH`.
    Format,
    /// A field of the string is not an unsigned 32-bit integer.
    NotInteger,
}

/// The message shown for a region error.
pub open spec fn spec_message(e: RegionError) -> Seq<char> {
    match e {
        RegionError::Format => "Correct region format is '[X,Y] WxH'"@,
        RegionError::NotInteger => "Region format requires only integers!"@,
    }
}

impl RegionError {
    /// The message shown for this error.
    pub fn message(&self) -> (r: String)
        ensures
            r@ == spec_message(*self),
            self is Format ==> r@ == "Correct region format is '[X,Y] WxH'"@,
            self is NotInteger ==> r@ == "Region format requires only integers!"@,
    {
        match self {
            RegionError::Format => "Correct region format is '[X,Y] WxH'".to_owned(),
            RegionError::NotInteger => "Region format requires only integers!".to_owned(),
        }
    }
}

/// ASCII whitespace: space, tab, line feed, vertical tab, form feed, carriage return.
/// Region strings are separated by these only; other Unicode spaces (such as U+00A0 or
/// U+3000) are not separators, and a field holding one is not an integer.
pub open spec fn is_space(c: u8) -> bool {
    c == 32 || (9 <= c && c <= 13)
}

pub open spec fn is_digit(c: u8) -> bool {
    48 <= c && c <= 57
}

/// The first index from `i` on that is not whitespace, or the length.
pub open spec fn skip_space(b: Seq<u8>, i: int) -> int
    decreases b.len() - i,
{
    if 0 <= i < b.len() && is_space(b[i]) {
        skip_space(b, i + 1)
    } else {
        i
    }
}

/// The first index from `i` on that is whitespace, or the length.
pub open spec fn token_end(b: Seq<u8>, i: int) -> int
    decreases b.len() - i,
{
    if 0 <= i < b.len() && !is_space(b[i]) {
        token_end(b, i + 1)
    } else {
        i
    }
}

/// The number that a run of decimal digits writes.
pub open spec fn digits_value(d: Seq<u8>) -> nat
    decreases d.len(),
{
    if d.len() == 0 {
        0
    } else {
        digits_value(d.drop_last()) * 10 + (d.last() - 48) as nat
    }
}

/// `t` without its leading `+`, if it has one.
pub open spec fn unsigned_part(t: Seq<u8>) -> Seq<u8> {
    if t.len() > 0 && t[0] == 43 {
        t.subrange(1, t.len() as int)
    } else {
        t
    }
}

pub open spec fn all_digits(d: Seq<u8>) -> bool {
    forall|j: int| 0 <= j < d.len() ==> is_digit(#[trigger] d[j])
}

/// An unsigned 32-bit integer in decimal, with an optional leading `+`.
pub open spec fn spec_parse_u32(t: Seq<u8>) -> Option<u32> {
    let d = unsigned_part(t);
    if d.len() > 0 && all_digits(d) && digits_value(d) <= u32::MAX {
        Some(digits_value(d) as u32)
    } else {
        None
    }
}

/// `sep` occurs in `t` at `k` and nowhere else.
pub open spec fn only_at(t: Seq<u8>, sep: u8, k: int) -> bool {
    &&& 0 <= k < t.len()
    &&& t[k] == sep
    &&& forall|j: int| 0 <= j < t.len() && j != k ==> #[trigger] t[j] != sep
}

/// Two integers separated by `sep`: the format is wrong unless `sep` occurs exactly once.
pub open spec fn spec_parse_pair(t: Seq<u8>, sep: u8) -> Result<(u32, u32), RegionError> {
    if exists|k: int| only_at(t, sep, k) {
        let k = choose|k: int| only_at(t, sep, k);
        match (spec_parse_u32(t.subrange(0, k)), spec_parse_u32(t.subrange(k + 1, t.len() as int))) {
            (Some(a), Some(b)) => Ok((a, b)),
            _ => Err(RegionError::NotInteger),
        }
    } else {
        Err(RegionError::Format)
    }
}

/// A region written `WxH`, or `X,Y WxH`, between any whitespace.
pub open spec fn spec_parse_region(b: Seq<u8>) -> Result<RegionSelect, RegionError> {
    let a0 = skip_space(b, 0);
    let e0 = token_end(b, a0);
    let a1 = skip_space(b, e0);
    let e1 = token_end(b, a1);
    let a2 = skip_space(b, e1);
    if a0 == b.len() || (a1 < b.len() && a2 < b.len()) {
        Err(RegionError::Format)
    } else if a1 == b.len() {
        match spec_parse_pair(b.subrange(a0, e0), 120) {
            Ok((w, h)) => Ok(
                RegionSelect { top_left_origin: Point { x: 0, y: 0 }, size: Point { x: w, y: h } },
            ),
            Err(e) => Err(e),
        }
    } else {
        match spec_parse_pair(b.subrange(a0, e0), 44) {
            Err(e) => Err(e),
            Ok((x, y)) => match spec_parse_pair(b.subrange(a1, e1), 120) {
                Ok((w, h)) => Ok(
                    RegionSelect { top_left_origin: Point { x, y }, size: Point { x: w, y: h } },
                ),
                Err(e) => Err(e),
            },
        }
    }
}

/// The decimal digits of `n`, most significant first, without leading zeros.
pub open spec fn decimal(n: nat) -> Seq<u8>
    decreases n,
{
    if n < 10 {
        seq![(48 + n) as u8]
    } else {
        decimal(n / 10).push((48 + n % 10) as u8)
    }
}

/// A region written out as `X,Y WxH` in decimal.
pub open spec fn region_text(r: RegionSelect) -> Seq<u8> {
    decimal(r.top_left_origin.x as nat) + seq![44u8] + decimal(r.top_left_origin.y as nat) + seq![
        32u8,
    ] + decimal(r.size.x as nat) + seq![120u8] + decimal(r.size.y as nat)
}

proof fn lemma_decimal(n: nat)
    ensures
        decimal(n).len() > 0,
        all_digits(decimal(n)),
        digits_value(decimal(n)) == n,
    decreases n,
{
    if n >= 10 {
        lemma_decimal(n / 10);
        let d = decimal(n);
        assert(d.drop_last() =~= decimal(n / 10));
        assert(d.last() == (48 + n % 10) as u8);
        assert((n / 10) * 10 + n % 10 == n) by (nonlinear_arith);
        assert(digits_value(d) == digits_value(decimal(n / 10)) * 10 + (n % 10));
        assert forall|j: int| 0 <= j < d.len() implies is_digit(#[trigger] d[j]) by {
            if j < d.len() - 1 {
                assert(d[j] == decimal(n / 10)[j]);
            }
        }
    } else {
        assert(decimal(n).drop_last() =~= Seq::<u8>::empty());
        assert(digits_value(decimal(n)) == digits_value(Seq::<u8>::empty()) * 10 + n);
    }
}

proof fn lemma_parse_decimal(n: u32)
    ensures
        spec_parse_u32(decimal(n as nat)) == Some(n),
{
    lemma_decimal(n as nat);
    assert(is_digit(decimal(n as nat)[0]));
    assert(unsigned_part(decimal(n as nat)) == decimal(n as nat));
}

proof fn lemma_skip_space_to(b: Seq<u8>, i: int, j: int)
    requires
        0 <= i <= j <= b.len(),
        forall|k: int| i <= k < j ==> is_space(#[trigger] b[k]),
        j == b.len() || !is_space(b[j]),
    ensures
        skip_space(b, i) == j,
    decreases j - i,
{
    if i < j {
        lemma_skip_space_to(b, i + 1, j);
    }
}

proof fn lemma_token_end_to(b: Seq<u8>, i: int, j: int)
    requires
        0 <= i <= j <= b.len(),
        forall|k: int| i <= k < j ==> !is_space(#[trigger] b[k]),
        j == b.len() || is_space(b[j]),
    ensures
        token_end(b, i) == j,
    decreases j - i,
{
    if i < j {
        lemma_token_end_to(b, i + 1, j);
    }
}

proof fn lemma_parse_pair_text(p: u32, q: u32, sep: u8)
    requires
        !is_digit(sep),
    ensures
        spec_parse_pair(decimal(p as nat) + seq![sep] + decimal(q as nat), sep) == Ok::<
            (u32, u32),
            RegionError,
        >((p, q)),
{
    let dp = decimal(p as nat);
    let dq = decimal(q as nat);
    let t = dp + seq![sep] + dq;
    lemma_decimal(p as nat);
    lemma_decimal(q as nat);
    lemma_parse_decimal(p);
    lemma_parse_decimal(q);
    let k = dp.len() as int;
    assert forall|j: int| 0 <= j < t.len() && j != k implies #[trigger] t[j] != sep by {
        if j < k {
            assert(t[j] == dp[j]);
            assert(is_digit(dp[j]));
        } else {
            assert(t[j] == dq[j - k - 1]);
            assert(is_digit(dq[j - k - 1]));
        }
    }
    assert(only_at(t, sep, k));
    let c = choose|m: int| only_at(t, sep, m);
    assert(c == k);
    assert(t.subrange(0, k) =~= dp);
    assert(t.subrange(k + 1, t.len() as int) =~= dq);
}

/// Writing a region out as `X,Y WxH` and parsing the text gives the region back.
pub proof fn lemma_region_text_round_trip(r: RegionSelect)
    ensures
        spec_parse_region(region_text(r)) == Ok::<RegionSelect, RegionError>(r),
{
    let a = decimal(r.top_left_origin.x as nat);
    let b = decimal(r.top_left_origin.y as nat);
    let c = decimal(r.size.x as nat);
    let d = decimal(r.size.y as nat);
    lemma_decimal(r.top_left_origin.x as nat);
    lemma_decimal(r.top_left_origin.y as nat);
    lemma_decimal(r.size.x as nat);
    lemma_decimal(r.size.y as nat);
    let first = a + seq![44u8] + b;
    let second = c + seq![120u8] + d;
    let s = region_text(r);
    assert(s =~= first + seq![32u8] + second);
    let e0 = first.len() as int;
    let n = s.len() as int;
    assert forall|k: int| 0 <= k < e0 implies !is_space(#[trigger] s[k]) by {
        assert(s[k] == first[k]);
        if k < a.len() {
            assert(first[k] == a[k]);
            assert(is_digit(a[k]));
        } else if k > a.len() {
            assert(first[k] == b[k - a.len() - 1]);
            assert(is_digit(b[k - a.len() - 1]));
        }
    }
    assert forall|k: int| e0 + 1 <= k < n implies !is_space(#[trigger] s[k]) by {
        assert(s[k] == second[k - e0 - 1]);
        if k - e0 - 1 < c.len() {
            assert(second[k - e0 - 1] == c[k - e0 - 1]);
            assert(is_digit(c[k - e0 - 1]));
        } else if k - e0 - 1 > c.len() {
            assert(second[k - e0 - 1] == d[k - e0 - 1 - c.len() - 1]);
            assert(is_digit(d[k - e0 - 1 - c.len() - 1]));
        }
    }
    lemma_skip_space_to(s, 0, 0);
    lemma_token_end_to(s, 0, e0);
    lemma_skip_space_to(s, e0, e0 + 1);
    lemma_token_end_to(s, e0 + 1, n);
    lemma_skip_space_to(s, n, n);
    assert(s.subrange(0, e0) =~= first);
    assert(s.subrange(e0 + 1, n) =~= second);
    lemma_parse_pair_text(r.top_left_origin.x, r.top_left_origin.y, 44u8);
    lemma_parse_pair_text(r.size.x, r.size.y, 120u8);
}

fn space(c: u8) -> (r: bool)
    ensures
        r == is_space(c),
{
    c == 32 || (9 <= c && c <= 13)
}

fn skip_space_from(b: &[u8], i: usize) -> (r: usize)
    requires
        i <= b@.len(),
    ensures
        r == skip_space(b@, i as int),
        i <= r <= b@.len(),
{
    let mut j: usize = i;
    while j < b.len() && space(b[j])
        invariant
            i <= j <= b@.len(),
            skip_space(b@, i as int) == skip_space(b@, j as int),
        decreases b@.len() - j,
    {
        j = j + 1;
    }
    j
}

fn token_end_from(b: &[u8], i: usize) -> (r: usize)
    requires
        i <= b@.len(),
    ensures
        r == token_end(b@, i as int),
        i <= r <= b@.len(),
{
    let mut j: usize = i;
    while j < b.len() && !space(b[j])
        invariant
            i <= j <= b@.len(),
            token_end(b@, i as int) == token_end(b@, j as int),
        decreases b@.len() - j,
    {
        j = j + 1;
    }
    j
}

proof fn lemma_prefix_value_le(d: Seq<u8>, n: int)
    requires
        0 <= n <= d.len(),
    ensures
        digits_value(d.subrange(0, n)) <= digits_value(d),
    decreases d.len() - n,
{
    if n < d.len() {
        let e = d.drop_last();
        assert(e.subrange(0, n) =~= d.subrange(0, n));
        lemma_prefix_value_le(e, n);
    } else {
        assert(d.subrange(0, n) =~= d);
    }
}

/// Parses `b[start..end]` as an unsigned 32-bit decimal integer.
fn parse_u32(b: &[u8], start: usize, end: usize) -> (r: Option<u32>)
    requires
        start <= end <= b@.len(),
    ensures
        r == spec_parse_u32(b@.subrange(start as int, end as int)),
{
    let ghost t = b@.subrange(start as int, end as int);
    let mut i: usize = start;
    if i < end && b[i] == 43u8 {
        i = i + 1;
    }
    let d0: usize = i;
    let ghost d = b@.subrange(d0 as int, end as int);
    assert(d =~= unsigned_part(t));
    if i == end {
        return None;
    }
    let mut acc: u64 = 0;
    while i < end
        invariant
            start <= d0 <= i <= end <= b@.len(),
            d == b@.subrange(d0 as int, end as int),
            t == b@.subrange(start as int, end as int),
            d == unsigned_part(t),
            acc == digits_value(b@.subrange(d0 as int, i as int)),
            acc <= u32::MAX,
            forall|j: int| d0 <= j < i ==> is_digit(#[trigger] b@[j]),
        decreases end - i,
    {
        let c = b[i];
        if !(48u8 <= c && c <= 57u8) {
            proof {
                let j = i - d0;
                assert(0 <= j < d.len());
                assert(d[j] == b@[i as int]);
                assert(!is_digit(d[j]));
                assert(spec_parse_u32(t) is None);
            }
            return None;
        }
        proof {
            assert(b@.subrange(d0 as int, i + 1).drop_last() =~= b@.subrange(d0 as int, i as int));
        }
        let v: u64 = acc * 10 + (c - 48u8) as u64;
        if v > 0xffff_ffffu64 {
            proof {
                if all_digits(d) {
                    lemma_prefix_value_le(d, i + 1 - d0);
                    assert(d.subrange(0, i + 1 - d0) =~= b@.subrange(d0 as int, i + 1));
                    assert(digits_value(b@.subrange(d0 as int, i + 1)) == v);
                }
                assert(spec_parse_u32(t) is None);
            }
            return None;
        }
        acc = v;
        i = i + 1;
    }
    assert(b@.subrange(d0 as int, i as int) =~= d);
    assert forall|j: int| 0 <= j < d.len() implies is_digit(#[trigger] d[j]) by {
        assert(d[j] == b@[d0 + j]);
    }
    Some(acc as u32)
}

/// Parses `b[start..end]` as two integers separated by `sep`.
fn parse_pair(b: &[u8], start: usize, end: usize, sep: u8) -> (r: Result<(u32, u32), RegionError>)
    requires
        start <= end <= b@.len(),
    ensures
        r == spec_parse_pair(b@.subrange(start as int, end as int), sep),
{
    let ghost t = b@.subrange(start as int, end as int);
    let mut count: usize = 0;
    let mut k: usize = start;
    let mut i: usize = start;
    while i < end
        invariant
            start <= i <= end <= b@.len(),
            t == b@.subrange(start as int, end as int),
            count <= 1,
            count == 0 ==> forall|j: int| start <= j < i ==> #[trigger] b@[j] != sep,
            count == 1 ==> start <= k < i && b@[k as int] == sep && forall|j: int|
                start <= j < i && j != k ==> #[trigger] b@[j] != sep,
        decreases end - i,
    {
        if b[i] == sep {
            if count == 1 {
                proof {
                    assert forall|m: int| !only_at(t, sep, m) by {
                        if only_at(t, sep, m) {
                            assert(t[k - start] == sep);
                            assert(t[i - start] == sep);
                        }
                    }
                }
                return Err(RegionError::Format);
            }
            count = 1;
            k = i;
        }
        i = i + 1;
    }
    if count == 0 {
        proof {
            assert forall|m: int| !only_at(t, sep, m) by {
                if only_at(t, sep, m) {
                    assert(t[m] == b@[start + m]);
                }
            }
        }
        return Err(RegionError::Format);
    }
    let ghost kk = k - start;
    proof {
        assert forall|j: int| 0 <= j < t.len() && j != kk implies #[trigger] t[j] != sep by {
            assert(t[j] == b@[start + j]);
        }
        assert(only_at(t, sep, kk));
        assert forall|m: int| only_at(t, sep, m) implies m == kk by {
            if m != kk {
                assert(t[kk] == sep);
            }
        }
        assert(t.subrange(0, kk) =~= b@.subrange(start as int, k as int));
        assert(t.subrange(kk + 1, t.len() as int) =~= b@.subrange(k + 1, end as int));
    }
    let first = parse_u32(b, start, k);
    let second = parse_u32(b, k + 1, end);
    match (first, second) {
        (Some(a), Some(c)) => Ok((a, c)),
        _ => Err(RegionError::NotInteger),
    }
}

/// Parses a region written `WxH`, or `X,Y WxH`, between any ASCII whitespace; the
/// origin defaults to the top-left corner.
pub fn parse_region(s: &str) -> (r: Result<RegionSelect, RegionError>)
    ensures
        r == spec_parse_region(s.spec_bytes()),
{
    let b = s.as_bytes();
    let n: usize = b.len();
    let a0 = skip_space_from(b, 0);
    let e0 = token_end_from(b, a0);
    let a1 = skip_space_from(b, e0);
    let e1 = token_end_from(b, a1);
    let a2 = skip_space_from(b, e1);
    if a0 == n || (a1 < n && a2 < n) {
        return Err(RegionError::Format);
    }
    if a1 == n {
        match parse_pair(b, a0, e0, 120u8) {
            Ok((w, h)) => Ok(
                RegionSelect { top_left_origin: Point { x: 0, y: 0 }, size: Point { x: w, y: h } },
            ),
            Err(e) => Err(e),
        }
    } else {
        match parse_pair(b, a0, e0, 44u8) {
            Err(e) => Err(e),
            Ok((x, y)) => match parse_pair(b, a1, e1, 120u8) {
                Ok((w, h)) => Ok(
                    RegionSelect { top_left_origin: Point { x, y }, size: Point { x: w, y: h } },
                ),
                Err(e) => Err(e),
            },
        }
    }
}

impl core::str::FromStr for RegionSelect {
    type Err = String;

    fn from_str(s: &str) -> (r: Result<RegionSelect, String>)
        ensures
            spec_parse_region(s.spec_bytes()) matches Ok(region) ==> r == Ok::<
                RegionSelect,
                String,
            >(region),
            spec_parse_region(s.spec_bytes()) matches Err(e) ==> r matches Err(m) && m@
                == spec_message(e),
    {
        match parse_region(s) {
            Ok(r) => Ok(r),
            Err(e) => Err(e.message()),
        }
    }
}

/// The command-line options of a capture run.
#[derive(Clone, Debug)]
pub struct Args {
    /// Where to save the image; unset until resolved.
    pub output: Option<String>,
    /// Skip the selection overlay.
    pub no_prompt: bool,
    /// Crop the image to this region.
    pub region: Option<RegionSelect>,
    /// Print the options and stop.
    pub dry_run: bool,
}

impl Args {
    /// The output path: the one given, or else `fallback`, which is kept from then on.
    pub fn get_output_dir(&mut self, fallback: String) -> (r: String)
        ensures
            old(self).output matches Some(p) ==> r@ == p@ && final(self).output
                == old(self).output,
            old(self).output is None ==> r@ == fallback@ && final(self).output == Some(fallback),
            final(self).no_prompt == old(self).no_prompt,
            final(self).region == old(self).region,
            final(self).dry_run == old(self).dry_run,
    {
        match &self.output {
            Some(p) => p.clone(),
            None => {
                let r = fallback.clone();
                self.output = Some(fallback);
                r
            },
        }
    }
}

} // verus!
