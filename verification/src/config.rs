//! Run configuration and its validation: the HTTP method must be a valid
//! method token, each header line must be `"Name: Value"` with a valid
//! field name and value, the stopping condition must be exactly one of a
//! positive request count or a positive duration, concurrency must be
//! positive, and the reported percentile must lie in 0..=100. Header names
//! are case-insensitive and a repeated name keeps its first position with
//! the last value written; a `Content-Type` header defaults to a JSON
//! content type when a body is supplied without one.

use vstd::prelude::*;

use crate::text::{
    byte_is_tchar,
    find_byte,
    is_tchar,
    lemma_find_byte_props,
    lower_byte,
    lower_bytes,
    subvec,
    to_lower,
    trim_bytes,
    trimmed,
};

verus! {

/// Why a configuration was rejected before any request was sent.
#[derive(Clone, Copy, Debug, PartialEq, Eq, Structural)]
pub enum ConfigError {
    EmptyUrl,
    InvalidMethod,
    HeaderMissingSeparator,
    InvalidHeaderName,
    InvalidHeaderValue,
    ZeroConcurrency,
    NoStoppingCondition,
    ConflictingStopConditions,
    ZeroRequests,
    ZeroDuration,
    PercentileOutOfRange,
}

/// One validated header: a lowercased field name and a trimmed value.
#[derive(Debug)]
pub struct HeaderPair {
    pub name: Vec<u8>,
    pub value: Vec<u8>,
}

/// The stopping condition of a run: exactly one of a fixed request count
/// or a fixed wall-clock duration.
#[derive(Debug, PartialEq, Eq, Structural)]
pub enum RunMode {
    TotalRequests(usize),
    DurationMillis(u64),
}

/// Unvalidated inputs, as the command line hands them over.
#[derive(Debug)]
pub struct RawConfig {
    pub url: Vec<u8>,
    pub method: Vec<u8>,
    pub body: Option<Vec<u8>>,
    pub headers: Vec<Vec<u8>>,
    pub concurrency: usize,
    pub requests: Option<usize>,
    pub duration_ms: Option<u64>,
    pub percentile: u32,
}

/// A validated configuration; `build_config` is its only constructor.
#[derive(Debug)]
pub struct BenchConfig {
    pub url: Vec<u8>,
    pub method: Vec<u8>,
    pub body: Option<Vec<u8>>,
    pub headers: Vec<HeaderPair>,
    pub concurrency: usize,
    pub mode: RunMode,
    pub percentile: u32,
}

/// A valid HTTP method: a non-empty token.
pub open spec fn valid_method(s: Seq<u8>) -> bool {
    s.len() >= 1 && forall|i: int| 0 <= i < s.len() ==> is_tchar(#[trigger] s[i])
}

/// A valid header field name: a non-empty token of at most 65535 bytes.
pub open spec fn valid_header_name(s: Seq<u8>) -> bool {
    1 <= s.len() <= 65535 && forall|i: int| 0 <= i < s.len() ==> is_tchar(#[trigger] s[i])
}

/// A valid header field value byte: visible or obs-text, or horizontal tab.
pub open spec fn valid_value_byte(b: u8) -> bool {
    (b >= 32 && b != 127) || b == 9
}

/// A valid header field value.
pub open spec fn valid_header_value(s: Seq<u8>) -> bool {
    forall|i: int| 0 <= i < s.len() ==> valid_value_byte(#[trigger] s[i])
}

/// The trimmed, lowercased name part of a header line (meaningful when the
/// line has a separator).
pub open spec fn header_name_of(line: Seq<u8>) -> Seq<u8> {
    lower_bytes(trimmed(line.take(find_byte(line, 58))))
}

/// The trimmed value part of a header line (meaningful when the line has a
/// separator).
pub open spec fn header_value_of(line: Seq<u8>) -> Seq<u8> {
    trimmed(line.skip(find_byte(line, 58) + 1))
}

/// The rejection a single header line earns, if any.
pub open spec fn header_line_error(line: Seq<u8>) -> Option<ConfigError> {
    if find_byte(line, 58) == -1 {
        Some(ConfigError::HeaderMissingSeparator)
    } else if !valid_header_name(trimmed(line.take(find_byte(line, 58)))) {
        Some(ConfigError::InvalidHeaderName)
    } else if !valid_header_value(header_value_of(line)) {
        Some(ConfigError::InvalidHeaderValue)
    } else {
        None
    }
}

/// The first rejection among a sequence of header lines, if any.
pub open spec fn headers_error(lines: Seq<Seq<u8>>) -> Option<ConfigError>
    decreases lines.len(),
{
    if lines.len() == 0 {
        None
    } else if header_line_error(lines[0]) is Some {
        header_line_error(lines[0])
    } else {
        headers_error(lines.drop_first())
    }
}

/// Index of the first pair in `hs` whose name is `k`, or -1 if absent.
pub open spec fn name_index(hs: Seq<(Seq<u8>, Seq<u8>)>, k: Seq<u8>) -> int
    decreases hs.len(),
{
    if hs.len() == 0 {
        -1
    } else if hs[0].0 == k {
        0
    } else {
        let r = name_index(hs.drop_first(), k);
        if r < 0 {
            -1
        } else {
            r + 1
        }
    }
}

/// Insertion with last-write-wins semantics: a present name keeps its
/// position and takes the new value; an absent name is appended.
pub open spec fn upsert(hs: Seq<(Seq<u8>, Seq<u8>)>, k: Seq<u8>, v: Seq<u8>) -> Seq<
    (Seq<u8>, Seq<u8>),
> {
    if name_index(hs, k) == -1 {
        hs.push((k, v))
    } else {
        hs.update(name_index(hs, k), (k, v))
    }
}

/// The header list obtained by upserting each parsed line in order,
/// starting from `acc` (meaningful when every line is valid).
pub open spec fn fold_headers_from(
    acc: Seq<(Seq<u8>, Seq<u8>)>,
    lines: Seq<Seq<u8>>,
) -> Seq<(Seq<u8>, Seq<u8>)>
    decreases lines.len(),
{
    if lines.len() == 0 {
        acc
    } else {
        fold_headers_from(
            upsert(acc, header_name_of(lines[0]), header_value_of(lines[0])),
            lines.drop_first(),
        )
    }
}

/// The header list obtained from the raw header lines.
pub open spec fn folded_headers(lines: Seq<Seq<u8>>) -> Seq<(Seq<u8>, Seq<u8>)> {
    fold_headers_from(Seq::empty(), lines)
}

/// The bytes of the lowercase header name `content-type`.
pub open spec fn content_type_name() -> Seq<u8> {
    seq![99u8, 111u8, 110u8, 116u8, 101u8, 110u8, 116u8, 45u8, 116u8, 121u8, 112u8, 101u8]
}

/// The bytes of the default content type `application/json`.
pub open spec fn json_content_type() -> Seq<u8> {
    seq![
        97u8,
        112u8,
        112u8,
        108u8,
        105u8,
        99u8,
        97u8,
        116u8,
        105u8,
        111u8,
        110u8,
        47u8,
        106u8,
        115u8,
        111u8,
        110u8,
    ]
}

/// The final header list: when a body is present and no content type was
/// set, the JSON content type is appended.
pub open spec fn with_default_content_type(
    hs: Seq<(Seq<u8>, Seq<u8>)>,
    has_body: bool,
) -> Seq<(Seq<u8>, Seq<u8>)> {
    if has_body && name_index(hs, content_type_name()) == -1 {
        hs.push((content_type_name(), json_content_type()))
    } else {
        hs
    }
}

/// Pairwise-distinct names: what last-write-wins insertion maintains.
pub open spec fn unique_names(hs: Seq<(Seq<u8>, Seq<u8>)>) -> bool {
    forall|i: int, j: int|
        0 <= i < j < hs.len() ==> (#[trigger] hs[i]).0 != (#[trigger] hs[j]).0
}

/// Upserting keeps the names pairwise distinct.
pub proof fn lemma_upsert_preserves_unique(hs: Seq<(Seq<u8>, Seq<u8>)>, k: Seq<u8>, v: Seq<u8>)
    requires
        unique_names(hs),
    ensures
        unique_names(upsert(hs, k, v)),
{
    lemma_name_index_props(hs, k);
    let r = name_index(hs, k);
    if r == -1 {
        let pushed = hs.push((k, v));
        assert forall|i: int, j: int| 0 <= i < j < pushed.len() implies (#[trigger] pushed[i]).0
            != (#[trigger] pushed[j]).0 by {
            if j == hs.len() {
                assert(pushed[i] == hs[i]);
            } else {
                assert(pushed[i] == hs[i]);
                assert(pushed[j] == hs[j]);
            }
        }
    } else {
        let updated = hs.update(r, (k, v));
        assert(hs[r].0 == k);
        assert forall|i: int, j: int| 0 <= i < j < updated.len() implies (#[trigger] updated[i]).0
            != (#[trigger] updated[j]).0 by {
            if i != r && j != r {
                assert(updated[i] == hs[i]);
                assert(updated[j] == hs[j]);
            } else if i == r {
                assert(updated[j] == hs[j]);
                assert(hs[r].0 == k);
            } else {
                assert(updated[i] == hs[i]);
                assert(hs[r].0 == k);
            }
        }
    }
}

/// Folding header lines onto a list with pairwise-distinct names keeps the
/// names pairwise distinct.
pub proof fn lemma_fold_preserves_unique(acc: Seq<(Seq<u8>, Seq<u8>)>, lines: Seq<Seq<u8>>)
    requires
        unique_names(acc),
    ensures
        unique_names(fold_headers_from(acc, lines)),
    decreases lines.len(),
{
    if lines.len() > 0 {
        lemma_upsert_preserves_unique(acc, header_name_of(lines[0]), header_value_of(lines[0]));
        lemma_fold_preserves_unique(
            upsert(acc, header_name_of(lines[0]), header_value_of(lines[0])),
            lines.drop_first(),
        );
    }
}

/// The final header list of any raw lines has pairwise-distinct names:
/// a repeated name overwrites, and the content-type default is only added
/// when that name is absent.
pub proof fn lemma_final_headers_unique(lines: Seq<Seq<u8>>, has_body: bool)
    ensures
        unique_names(with_default_content_type(folded_headers(lines), has_body)),
{
    lemma_fold_preserves_unique(Seq::empty(), lines);
    let folded = folded_headers(lines);
    if has_body && name_index(folded, content_type_name()) == -1 {
        lemma_name_index_props(folded, content_type_name());
        let pushed = folded.push((content_type_name(), json_content_type()));
        assert forall|i: int, j: int| 0 <= i < j < pushed.len() implies (#[trigger] pushed[i]).0
            != (#[trigger] pushed[j]).0 by {
            if j == folded.len() {
                assert(pushed[i] == folded[i]);
            } else {
                assert(pushed[i] == folded[i]);
                assert(pushed[j] == folded[j]);
            }
        }
    }
}

/// View of an exec header list as a sequence of name/value byte sequences.
pub open spec fn headers_model(hs: Seq<HeaderPair>) -> Seq<(Seq<u8>, Seq<u8>)> {
    hs.map_values(|h: HeaderPair| (h.name@, h.value@))
}

/// View of the raw header lines as byte sequences.
pub open spec fn lines_model(lines: Seq<Vec<u8>>) -> Seq<Seq<u8>> {
    lines.map_values(|l: Vec<u8>| l@)
}

/// View of an optional byte vector.
pub open spec fn body_model(b: Option<Vec<u8>>) -> Option<Seq<u8>> {
    match b {
        Some(v) => Some(v@),
        None => None,
    }
}

/// The first rejection the whole raw configuration earns, if any; `None`
/// means the configuration is accepted.
pub open spec fn config_error_of(raw: RawConfig) -> Option<ConfigError> {
    if raw.url@.len() == 0 {
        Some(ConfigError::EmptyUrl)
    } else if !valid_method(raw.method@) {
        Some(ConfigError::InvalidMethod)
    } else if headers_error(lines_model(raw.headers@)) is Some {
        headers_error(lines_model(raw.headers@))
    } else if raw.concurrency == 0 {
        Some(ConfigError::ZeroConcurrency)
    } else if raw.requests is None && raw.duration_ms is None {
        Some(ConfigError::NoStoppingCondition)
    } else if raw.requests is Some && raw.duration_ms is Some {
        Some(ConfigError::ConflictingStopConditions)
    } else if raw.requests matches Some(n) && n == 0 {
        Some(ConfigError::ZeroRequests)
    } else if raw.duration_ms matches Some(d) && d == 0 {
        Some(ConfigError::ZeroDuration)
    } else if raw.percentile > 100 {
        Some(ConfigError::PercentileOutOfRange)
    } else {
        None
    }
}

/// The stopping condition of an accepted configuration.
pub open spec fn mode_of(raw: RawConfig) -> RunMode {
    match raw.requests {
        Some(n) => RunMode::TotalRequests(n),
        None => RunMode::DurationMillis(
            match raw.duration_ms {
                Some(d) => d,
                None => 0,
            },
        ),
    }
}

impl BenchConfig {
    /// Invariant established by `build_config`.
    pub open spec fn wf(self) -> bool {
        &&& self.url@.len() > 0
        &&& valid_method(self.method@)
        &&& self.concurrency >= 1
        &&& match self.mode {
            RunMode::TotalRequests(n) => n >= 1,
            RunMode::DurationMillis(d) => d >= 1,
        }
        &&& self.percentile <= 100
    }
}

fn method_is_valid(m: &Vec<u8>) -> (r: bool)
    ensures
        r == valid_method(m@),
{
    if m.len() == 0 {
        return false;
    }
    let mut i: usize = 0;
    while i < m.len()
        invariant
            0 <= i <= m@.len(),
            forall|j: int| 0 <= j < i ==> is_tchar(#[trigger] m@[j]),
        decreases m@.len() - i,
    {
        if !byte_is_tchar(m[i]) {
            return false;
        }
        i += 1;
    }
    true
}

fn header_name_is_valid(s: &Vec<u8>) -> (r: bool)
    ensures
        r == valid_header_name(s@),
{
    if s.len() < 1 || s.len() > 65535 {
        return false;
    }
    let mut i: usize = 0;
    while i < s.len()
        invariant
            0 <= i <= s@.len(),
            forall|j: int| 0 <= j < i ==> is_tchar(#[trigger] s@[j]),
        decreases s@.len() - i,
    {
        if !byte_is_tchar(s[i]) {
            return false;
        }
        i += 1;
    }
    true
}

fn header_value_is_valid(s: &Vec<u8>) -> (r: bool)
    ensures
        r == valid_header_value(s@),
{
    let mut i: usize = 0;
    while i < s.len()
        invariant
            0 <= i <= s@.len(),
            forall|j: int| 0 <= j < i ==> valid_value_byte(#[trigger] s@[j]),
        decreases s@.len() - i,
    {
        let b = s[i];
        if !((b >= 32 && b != 127) || b == 9) {
            return false;
        }
        i += 1;
    }
    true
}

fn lower_vec(s: &Vec<u8>) -> (r: Vec<u8>)
    ensures
        r@ == lower_bytes(s@),
{
    let mut r: Vec<u8> = Vec::new();
    let mut i: usize = 0;
    while i < s.len()
        invariant
            0 <= i <= s@.len(),
            r@ == lower_bytes(s@.take(i as int)),
        decreases s@.len() - i,
    {
        r.push(lower_byte(s[i]));
        assert(lower_bytes(s@.take(i + 1)) =~= lower_bytes(s@.take(i as int)).push(
            to_lower(s@[i as int]),
        ));
        i += 1;
    }
    assert(s@.take(s@.len() as int) =~= s@);
    r
}

/// Parse one `"Name: Value"` header line: split at the first colon, trim
/// both sides, validate, and lowercase the name.
pub fn parse_header_line(line: &Vec<u8>) -> (r: Result<HeaderPair, ConfigError>)
    ensures
        match r {
            Ok(hp) => {
                &&& header_line_error(line@) is None
                &&& hp.name@ == header_name_of(line@)
                &&& hp.value@ == header_value_of(line@)
            },
            Err(e) => header_line_error(line@) == Some(e),
        },
{
    let n = line.len();
    let mut i: usize = 0;
    while i < n && line[i] != 58
        invariant
            0 <= i <= n == line@.len(),
            forall|j: int| 0 <= j < i ==> line@[j] != 58,
        decreases n - i,
    {
        i += 1;
    }
    proof {
        lemma_find_byte_props(line@, 58);
    }
    if i == n {
        assert(find_byte(line@, 58) == -1);
        return Err(ConfigError::HeaderMissingSeparator);
    }
    assert(find_byte(line@, 58) == i);
    let name_raw = subvec(line, 0, i);
    assert(name_raw@ =~= line@.take(i as int));
    let name_trimmed = trim_bytes(&name_raw);
    if !header_name_is_valid(&name_trimmed) {
        return Err(ConfigError::InvalidHeaderName);
    }
    let value_raw = subvec(line, i + 1, n);
    assert(value_raw@ =~= line@.skip(i + 1));
    let value = trim_bytes(&value_raw);
    if !header_value_is_valid(&value) {
        return Err(ConfigError::InvalidHeaderValue);
    }
    let name = lower_vec(&name_trimmed);
    Ok(HeaderPair { name, value })
}

/// `name_index` returns -1 exactly when no pair has name `k`, and
/// otherwise the first index whose pair does.
pub proof fn lemma_name_index_props(hs: Seq<(Seq<u8>, Seq<u8>)>, k: Seq<u8>)
    ensures
        name_index(hs, k) == -1 ==> forall|j: int| 0 <= j < hs.len() ==> (#[trigger] hs[j]).0
            != k,
        name_index(hs, k) != -1 ==> {
            let r = name_index(hs, k);
            &&& 0 <= r < hs.len()
            &&& hs[r].0 == k
            &&& forall|j: int| 0 <= j < r ==> (#[trigger] hs[j]).0 != k
        },
    decreases hs.len(),
{
    if hs.len() == 0 {
    } else if hs[0].0 == k {
    } else {
        let t = hs.drop_first();
        lemma_name_index_props(t, k);
        if name_index(t, k) == -1 {
            assert forall|j: int| 0 <= j < hs.len() implies (#[trigger] hs[j]).0 != k by {
                if j > 0 {
                    assert(t[j - 1] == hs[j]);
                }
            }
        } else {
            let r = name_index(t, k);
            assert(hs[r + 1] == t[r]);
            assert forall|j: int| 0 <= j < r + 1 implies (#[trigger] hs[j]).0 != k by {
                if j > 0 {
                    assert(t[j - 1] == hs[j]);
                }
            }
        }
    }
}

fn bytes_eq(a: &Vec<u8>, b: &Vec<u8>) -> (r: bool)
    ensures
        r <==> a@ == b@,
{
    if a.len() != b.len() {
        assert(a@ != b@);
        return false;
    }
    let mut i: usize = 0;
    while i < a.len()
        invariant
            a@.len() == b@.len(),
            0 <= i <= a@.len(),
            forall|j: int| 0 <= j < i ==> a@[j] == b@[j],
        decreases a@.len() - i,
    {
        if a[i] != b[i] {
            return false;
        }
        i += 1;
    }
    assert(a@ =~= b@);
    true
}

/// Index of the first stored header whose name is `k.name`, as exec code.
fn find_name(hs: &Vec<HeaderPair>, k: &Vec<u8>) -> (r: Option<usize>)
    ensures
        match r {
            Some(ix) => ix < hs@.len() && name_index(headers_model(hs@), k@) == ix,
            None => name_index(headers_model(hs@), k@) == -1,
        },
{
    let mut i: usize = 0;
    while i < hs.len()
        invariant
            0 <= i <= hs@.len(),
            forall|j: int| 0 <= j < i ==> (#[trigger] headers_model(hs@)[j]).0 != k@,
        decreases hs@.len() - i,
    {
        let same = bytes_eq(&hs[i].name, k);
        proof {
            assert(headers_model(hs@)[i as int] == (hs@[i as int].name@, hs@[i as int].value@));
        }
        if same {
            proof {
                lemma_name_index_props(headers_model(hs@), k@);
                let m = headers_model(hs@);
                let r = name_index(m, k@);
                assert(m[i as int].0 == k@);
                if r == -1 {
                    assert(m[i as int].0 != k@);
                    assert(false);
                } else if r < i as int {
                    assert(m[r].0 == k@);
                    assert(m[r].0 != k@);
                    assert(false);
                } else if r > i as int {
                    assert(m[i as int].0 != k@);
                    assert(false);
                }
            }
            return Some(i);
        }
        i += 1;
    }
    proof {
        lemma_name_index_props(headers_model(hs@), k@);
        let m = headers_model(hs@);
        let r = name_index(m, k@);
        if r != -1 {
            assert(m[r].0 != k@);
        }
    }
    None
}

/// Store `hp`, replacing the value of an equal name in place or appending.
pub fn upsert_header(hs: &mut Vec<HeaderPair>, hp: HeaderPair)
    ensures
        headers_model(final (hs)@) == upsert(headers_model(old(hs)@), hp.name@, hp.value@),
{
    let ghost m0 = headers_model(hs@);
    match find_name(hs, &hp.name) {
        Some(ix) => {
            hs.set(ix, hp);
            assert(headers_model(hs@) =~= m0.update(ix as int, (hp.name@, hp.value@)));
        },
        None => {
            hs.push(hp);
            assert(headers_model(hs@) =~= m0.push((hp.name@, hp.value@)));
        },
    }
}

fn content_type_vec() -> (r: Vec<u8>)
    ensures
        r@ == content_type_name(),
{
    let mut v: Vec<u8> = Vec::new();
    v.push(99);
    v.push(111);
    v.push(110);
    v.push(116);
    v.push(101);
    v.push(110);
    v.push(116);
    v.push(45);
    v.push(116);
    v.push(121);
    v.push(112);
    v.push(101);
    assert(v@ =~= content_type_name());
    v
}

fn json_content_type_vec() -> (r: Vec<u8>)
    ensures
        r@ == json_content_type(),
{
    let mut v: Vec<u8> = Vec::new();
    v.push(97);
    v.push(112);
    v.push(112);
    v.push(108);
    v.push(105);
    v.push(99);
    v.push(97);
    v.push(116);
    v.push(105);
    v.push(111);
    v.push(110);
    v.push(47);
    v.push(106);
    v.push(115);
    v.push(111);
    v.push(110);
    assert(v@ =~= json_content_type());
    v
}

/// Validate a raw configuration and normalize it into a `BenchConfig`,
/// or report the first rejection. No request is sent on the `Err` path:
/// a run can only be launched from the returned configuration.
pub fn build_config(raw: RawConfig) -> (r: Result<BenchConfig, ConfigError>)
    ensures
        match r {
            Ok(c) => {
                &&& config_error_of(raw) is None
                &&& c.wf()
                &&& c.url@ == raw.url@
                &&& c.method@ == raw.method@
                &&& body_model(c.body) == body_model(raw.body)
                &&& headers_model(c.headers@) == with_default_content_type(
                    folded_headers(lines_model(raw.headers@)),
                    raw.body is Some,
                )
                &&& unique_names(headers_model(c.headers@))
                &&& c.concurrency == raw.concurrency
                &&& c.mode == mode_of(raw)
                &&& c.percentile == raw.percentile
            },
            Err(e) => config_error_of(raw) == Some(e),
        },
{
    if raw.url.len() == 0 {
        return Err(ConfigError::EmptyUrl);
    }
    if !method_is_valid(&raw.method) {
        return Err(ConfigError::InvalidMethod);
    }

    let ghost lines = lines_model(raw.headers@);
    let mut headers: Vec<HeaderPair> = Vec::new();
    let mut i: usize = 0;
    assert(lines.skip(0) =~= lines);
    assert(headers_model(headers@) =~= Seq::<(Seq<u8>, Seq<u8>)>::empty());
    while i < raw.headers.len()
        invariant
            0 <= i <= raw.headers@.len(),
            lines == lines_model(raw.headers@),
            raw.url@.len() > 0,
            valid_method(raw.method@),
            headers_error(lines) == headers_error(lines.skip(i as int)),
            fold_headers_from(headers_model(headers@), lines.skip(i as int)) == folded_headers(
                lines,
            ),
        decreases raw.headers@.len() - i,
    {
        let ghost rest = lines.skip(i as int);
        assert(lines[i as int] == raw.headers@[i as int]@);
        assert(rest[0] == lines[i as int]);
        assert(rest.drop_first() =~= lines.skip(i + 1));
        match parse_header_line(&raw.headers[i]) {
            Ok(hp) => {
                upsert_header(&mut headers, hp);
            },
            Err(e) => {
                assert(headers_error(rest) == Some(e));
                assert(headers_error(lines) == Some(e));
                return Err(e);
            },
        }
        i += 1;
    }
    assert(lines.skip(lines.len() as int) =~= Seq::<Seq<u8>>::empty());
    assert(headers_error(lines) is None);
    assert(headers_model(headers@) == folded_headers(lines));

    if raw.concurrency == 0 {
        return Err(ConfigError::ZeroConcurrency);
    }
    let mode = match (raw.requests, raw.duration_ms) {
        (None, None) => {
            return Err(ConfigError::NoStoppingCondition);
        },
        (Some(_), Some(_)) => {
            return Err(ConfigError::ConflictingStopConditions);
        },
        (Some(n), None) => {
            if n == 0 {
                return Err(ConfigError::ZeroRequests);
            }
            RunMode::TotalRequests(n)
        },
        (None, Some(d)) => {
            if d == 0 {
                return Err(ConfigError::ZeroDuration);
            }
            RunMode::DurationMillis(d)
        },
    };
    if raw.percentile > 100 {
        return Err(ConfigError::PercentileOutOfRange);
    }

    let has_body = raw.body.is_some();
    if has_body {
        let ct = content_type_vec();
        match find_name(&headers, &ct) {
            Some(_) => {},
            None => {
                let ghost m0 = headers_model(headers@);
                headers.push(HeaderPair { name: ct, value: json_content_type_vec() });
                assert(headers_model(headers@) =~= m0.push(
                    (content_type_name(), json_content_type()),
                ));
            },
        }
    }

    proof {
        lemma_final_headers_unique(lines, has_body);
    }
    Ok(
        BenchConfig {
            url: raw.url,
            method: raw.method,
            body: raw.body,
            headers,
            concurrency: raw.concurrency,
            mode,
            percentile: raw.percentile,
        },
    )
}

} // verus!
