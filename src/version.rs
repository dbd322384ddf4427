use vstd::prelude::*;

verus! {

/// A parsed semantic version: numeric core, pre-release and build metadata.
#[derive(Debug, Clone, PartialEq, Eq)]
pub struct SemanticVersion {
    pub major: u64,
    pub minor: u64,
    pub patch: u64,
    pub pre: String,
    pub build: String,
}

impl SemanticVersion {
    /// The version as plain values.
    pub open spec fn parts(self) -> (u64, u64, u64, Seq<char>, Seq<char>) {
        (self.major, self.minor, self.patch, self.pre@, self.build@)
    }

    /// Parses `text` as a semantic version; `None` when it is not one.
    pub fn parse(text: &str) -> (r: Option<SemanticVersion>)
        ensures
            match r {
                Some(v) => semver_of(text@) == Some(v.parts()),
                None => semver_of(text@) is None,
            },
    {
        match parse_semver(text) {
            Ok(v) => Some(v),
            Err(_) => None,
        }
    }

    /// Parses `text` as a semantic version after writing its numeric core
    /// in full (see `normalized`): `"2.0"` and `"02.0.0"` read as `2.0.0`.
    pub fn parse_normalized(text: &str) -> (r: Option<SemanticVersion>)
        ensures
            match r {
                Some(v) => semver_of(normalized(text@)) == Some(v.parts()),
                None => semver_of(normalized(text@)) is None,
            },
    {
        let full = normalize_version(text);
        SemanticVersion::parse(full.as_str())
    }

    /// Whether two versions are the same semantic version.
    pub fn same_as(&self, other: &SemanticVersion) -> (r: bool)
        ensures
            r == (self.parts() == other.parts()),
    {
        self.major == other.major && self.minor == other.minor && self.patch == other.patch
            && self.pre == other.pre && self.build == other.build
    }
}

/// What `semver::Version::parse` makes of a text: its major, minor and patch
/// numbers, pre-release and build metadata, or nothing when it rejects it.
pub uninterp spec fn semver_of(text: Seq<char>) -> Option<(u64, u64, u64, Seq<char>, Seq<char>)>;

#[verifier::external_type_specification]
#[verifier::external_body]
pub struct ExSemverError(semver::Error);

/// Relies on `semver::Version::parse`: the parse depends on the text alone,
/// and the fields of the parsed version are handed over as they are.
#[verifier::external_body]
fn parse_semver(text: &str) -> (r: Result<SemanticVersion, semver::Error>)
    ensures
        match r {
            Ok(v) => semver_of(text@) == Some(v.parts()),
            Err(_) => semver_of(text@) is None,
        },
{
    match semver::Version::parse(text) {
        Ok(v) => Ok(
            SemanticVersion {
                major: v.major,
                minor: v.minor,
                patch: v.patch,
                pre: v.pre.as_str().to_string(),
                build: v.build.as_str().to_string(),
            },
        ),
        Err(e) => Err(e),
    }
}

/// A decimal digit.
pub open spec fn is_digit(c: char) -> bool {
    '0' <= c && c <= '9'
}

/// A character that ends the numeric core of a version: the start of its
/// pre-release or of its build metadata.
pub open spec fn ends_core(c: char) -> bool {
    c == '-' || c == '+'
}

/// The length of the numeric core: the characters before the first `-` or `+`.
pub open spec fn core_len(s: Seq<char>) -> nat
    decreases s.len(),
{
    if s.len() == 0 {
        0
    } else if ends_core(s[0]) {
        0
    } else {
        1 + core_len(s.drop_first())
    }
}

/// The position of the first `.`, or the length where there is none.
pub open spec fn dot_pos(s: Seq<char>) -> nat
    decreases s.len(),
{
    if s.len() == 0 {
        0
    } else if s[0] == '.' {
        0
    } else {
        1 + dot_pos(s.drop_first())
    }
}

/// The pieces of `s` between its dots.
pub open spec fn split_dots(s: Seq<char>) -> Seq<Seq<char>>
    decreases s.len(),
{
    let d = dot_pos(s);
    if d >= s.len() {
        seq![s]
    } else {
        seq![s.subrange(0, d as int)] + split_dots(s.subrange(d + 1 as int, s.len() as int))
    }
}

/// One digit or more.
pub open spec fn is_numeral(p: Seq<char>) -> bool {
    p.len() > 0 && forall|i: int| 0 <= i < p.len() ==> is_digit(#[trigger] p[i])
}

/// A numeral without its leading zeros; a lone zero stays.
pub open spec fn strip_zeros(p: Seq<char>) -> Seq<char>
    decreases p.len(),
{
    if p.len() > 1 && p[0] == '0' {
        strip_zeros(p.drop_first())
    } else {
        p
    }
}

/// The `i`-th number of a core, without leading zeros, or zero where the
/// core has fewer numbers.
pub open spec fn number_or_zero(parts: Seq<Seq<char>>, i: int) -> Seq<char> {
    if i < parts.len() {
        strip_zeros(parts[i])
    } else {
        "0"@
    }
}

/// The text of a version with its numeric core written in full: leading
/// zeros dropped and a missing minor or patch number given as zero. Text
/// whose core is not one to three numerals separated by dots stays as it is.
pub open spec fn normalized(s: Seq<char>) -> Seq<char> {
    let e = core_len(s) as int;
    let parts = split_dots(s.subrange(0, e));
    if parts.len() <= 3 && forall|i: int| 0 <= i < parts.len() ==> is_numeral(#[trigger] parts[i]) {
        number_or_zero(parts, 0) + "."@ + number_or_zero(parts, 1) + "."@ + number_or_zero(parts, 2)
            + s.subrange(e, s.len() as int)
    } else {
        s
    }
}

fn find_core_len(text: &str, n: usize) -> (e: usize)
    requires
        n == text@.len(),
    ensures
        e == core_len(text@),
        e <= n,
{
    let mut i: usize = 0;
    assert(text@.subrange(0, n as int) =~= text@);
    while i < n
        invariant
            n == text@.len(),
            i <= n,
            core_len(text@) == i + core_len(text@.subrange(i as int, n as int)),
        decreases n - i,
    {
        let c = text.get_char(i);
        assert(text@.subrange(i as int, n as int)[0] == c);
        if c == '-' || c == '+' {
            return i;
        }
        assert(text@.subrange(i as int, n as int).drop_first() =~= text@.subrange(
            i + 1,
            n as int,
        ));
        i = i + 1;
    }
    i
}

fn find_dot(text: &str, from: usize, end: usize) -> (d: usize)
    requires
        from <= end <= text@.len(),
    ensures
        from <= d <= end,
        d - from == dot_pos(text@.subrange(from as int, end as int)),
{
    let mut i: usize = from;
    while i < end
        invariant
            from <= i <= end <= text@.len(),
            dot_pos(text@.subrange(from as int, end as int)) == (i - from) + dot_pos(
                text@.subrange(i as int, end as int),
            ),
        decreases end - i,
    {
        let c = text.get_char(i);
        assert(text@.subrange(i as int, end as int)[0] == c);
        if c == '.' {
            return i;
        }
        assert(text@.subrange(i as int, end as int).drop_first() =~= text@.subrange(
            i + 1,
            end as int,
        ));
        i = i + 1;
    }
    i
}

/// The pieces of `text` that `parts` marks out.
pub open spec fn pieces(text: Seq<char>, parts: Seq<(usize, usize)>) -> Seq<Seq<char>> {
    parts.map_values(|pr: (usize, usize)| text.subrange(pr.0 as int, pr.1 as int))
}

fn split_core(text: &str, e: usize) -> (parts: Vec<(usize, usize)>)
    requires
        e <= text@.len(),
    ensures
        split_dots(text@.subrange(0, e as int)) == pieces(text@, parts@),
        forall|k: int| 0 <= k < parts@.len() ==> #[trigger] parts@[k].0 <= parts@[k].1 <= e,
{
    let mut parts: Vec<(usize, usize)> = Vec::new();
    let mut p: usize = 0;
    assert(pieces(text@, parts@) =~= Seq::<Seq<char>>::empty());
    assert(Seq::<Seq<char>>::empty() + split_dots(text@.subrange(0, e as int)) =~= split_dots(
        text@.subrange(0, e as int),
    ));
    loop
        invariant_except_break
            split_dots(text@.subrange(0, e as int)) == pieces(text@, parts@) + split_dots(
                text@.subrange(p as int, e as int),
            ),
        invariant
            p <= e <= text@.len(),
            forall|k: int| 0 <= k < parts@.len() ==> #[trigger] parts@[k].0 <= parts@[k].1 <= e,
        ensures
            split_dots(text@.subrange(0, e as int)) == pieces(text@, parts@),
            forall|k: int| 0 <= k < parts@.len() ==> #[trigger] parts@[k].0 <= parts@[k].1 <= e,
        decreases e - p,
    {
        let ghost before = pieces(text@, parts@);
        let ghost rest = text@.subrange(p as int, e as int);
        let d = find_dot(text, p, e);
        parts.push((p, d));
        assert(parts@[parts@.len() - 1] == (p, d));
        assert(pieces(text@, parts@) =~= before.push(text@.subrange(p as int, d as int)));
        if d == e {
            assert(split_dots(rest) == seq![rest]);
            assert(before + seq![rest] =~= before.push(rest));
            break;
        }
        assert(rest.subrange(0, (d - p) as int) =~= text@.subrange(p as int, d as int));
        assert(rest.subrange((d - p) + 1, rest.len() as int) =~= text@.subrange(
            d + 1,
            e as int,
        ));
        let ghost tail = split_dots(text@.subrange(d + 1, e as int));
        assert(before + (seq![text@.subrange(p as int, d as int)] + tail) =~= before.push(
            text@.subrange(p as int, d as int),
        ) + tail);
        p = d + 1;
    }
    parts
}

fn is_numeral_at(text: &str, a: usize, b: usize) -> (r: bool)
    requires
        a <= b <= text@.len(),
    ensures
        r == is_numeral(text@.subrange(a as int, b as int)),
{
    if a == b {
        return false;
    }
    let mut i: usize = a;
    while i < b
        invariant
            a <= i <= b <= text@.len(),
            forall|k: int| a <= k < i ==> is_digit(#[trigger] text@[k]),
        decreases b - i,
    {
        let c = text.get_char(i);
        if !('0' <= c && c <= '9') {
            assert(text@.subrange(a as int, b as int)[i - a] == c);
            return false;
        }
        i = i + 1;
    }
    assert forall|k: int| 0 <= k < b - a implies is_digit(
        #[trigger] text@.subrange(a as int, b as int)[k],
    ) by {
        assert(text@.subrange(a as int, b as int)[k] == text@[a + k]);
    }
    true
}

fn stripped(text: &str, a: usize, b: usize) -> (r: &str)
    requires
        a <= b <= text@.len(),
    ensures
        r@ == strip_zeros(text@.subrange(a as int, b as int)),
{
    let mut i: usize = a;
    while b - i > 1 && text.get_char(i) == '0'
        invariant
            a <= i <= b <= text@.len(),
            strip_zeros(text@.subrange(a as int, b as int)) == strip_zeros(
                text@.subrange(i as int, b as int),
            ),
        decreases b - i,
    {
        assert(text@.subrange(i as int, b as int)[0] == text@[i as int]);
        assert(text@.subrange(i as int, b as int).drop_first() =~= text@.subrange(
            i + 1,
            b as int,
        ));
        i = i + 1;
    }
    if i < b {
        assert(text@.subrange(i as int, b as int)[0] == text@[i as int]);
    }
    text.substring_char(i, b)
}

/// Writes the numeric core of a version in full: drops leading zeros and
/// gives a missing minor or patch number as zero.
pub fn normalize_version(text: &str) -> (r: String)
    ensures
        r@ == normalized(text@),
{
    let n = text.unicode_len();
    let e = find_core_len(text, n);
    let parts = split_core(text, e);
    let ghost ps = pieces(text@, parts@);
    if parts.len() > 3 {
        return String::from_str(text);
    }
    let mut k: usize = 0;
    while k < parts.len()
        invariant
            k <= parts@.len(),
            ps == pieces(text@, parts@),
            forall|j: int| 0 <= j < parts@.len() ==> #[trigger] parts@[j].0 <= parts@[j].1 <= e,
            e <= text@.len(),
            forall|j: int| 0 <= j < k ==> is_numeral(#[trigger] ps[j]),
            parts@.len() <= 3,
            e == core_len(text@),
            split_dots(text@.subrange(0, e as int)) == ps,
        decreases parts.len() - k,
    {
        let (a, b) = parts[k];
        assert(ps[k as int] == text@.subrange(a as int, b as int));
        if !is_numeral_at(text, a, b) {
            assert(!is_numeral(ps[k as int]));
            return String::from_str(text);
        }
        k = k + 1;
    }
    let mut out = String::new();
    let (a0, b0) = parts[0];
    out.append(stripped(text, a0, b0));
    out.append(".");
    if parts.len() > 1 {
        let (a1, b1) = parts[1];
        out.append(stripped(text, a1, b1));
    } else {
        out.append("0");
    }
    out.append(".");
    if parts.len() > 2 {
        let (a2, b2) = parts[2];
        out.append(stripped(text, a2, b2));
    } else {
        out.append("0");
    }
    out.append(text.substring_char(e, n));
    assert(out@ =~= normalized(text@));
    out
}

} // verus!
