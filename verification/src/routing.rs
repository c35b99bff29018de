//! Confidentiality routing: which level a set of files has, from glob rules, and
//! whether that level keeps the work on a local model.
use vstd::prelude::*;
use vstd::string::StringSliceAdditionalSpecFns;
use crate::text::{chars_of, string_of, to_uppercase_text, trim_text, trimmed, uppercase};

verus! {

/// Confidentiality levels; a higher level is more confidential.
#[derive(Debug, Clone, Copy, PartialEq, Eq, Structural, PartialOrd, Ord)]
pub enum Confidentiality {
    /// Public: cloud allowed.
    S0,
    /// Internal: cloud allowed.
    S1,
    /// Confidential: local only.
    S2,
    /// Top secret: local only.
    S3,
}

/// The position of a level in the order `S0 < S1 < S2 < S3`.
pub open spec fn rank(c: Confidentiality) -> int {
    match c {
        Confidentiality::S0 => 0,
        Confidentiality::S1 => 1,
        Confidentiality::S2 => 2,
        Confidentiality::S3 => 3,
    }
}

impl Confidentiality {
    pub fn rank_of(self) -> (r: u8)
        ensures
            r == rank(self),
    {
        match self {
            Confidentiality::S0 => 0,
            Confidentiality::S1 => 1,
            Confidentiality::S2 => 2,
            Confidentiality::S3 => 3,
        }
    }

    /// Levels from `S2` up must stay on a local model.
    pub fn requires_local(self) -> (r: bool)
        ensures
            r == (rank(self) >= 2),
    {
        self.rank_of() >= 2
    }
}

/// The level that a name denotes (`S0` to `S3`).
pub open spec fn level_named(name: Seq<char>) -> Option<Confidentiality> {
    if name == "S0"@ {
        Some(Confidentiality::S0)
    } else if name == "S1"@ {
        Some(Confidentiality::S1)
    } else if name == "S2"@ {
        Some(Confidentiality::S2)
    } else if name == "S3"@ {
        Some(Confidentiality::S3)
    } else {
        None
    }
}

/// The level written in `s`, ignoring surrounding white space and case.
pub open spec fn parse_level_spec(s: Seq<char>) -> Option<Confidentiality> {
    level_named(uppercase(trimmed(s)))
}

/// Reads a level name, ignoring surrounding white space and case.
pub fn parse_level(s: &str) -> (r: Option<Confidentiality>)
    ensures
        r == parse_level_spec(s@),
{
    let t = trim_text(s);
    let u = to_uppercase_text(t.as_str());
    if u == String::from_str("S0") {
        Some(Confidentiality::S0)
    } else if u == String::from_str("S1") {
        Some(Confidentiality::S1)
    } else if u == String::from_str("S2") {
        Some(Confidentiality::S2)
    } else if u == String::from_str("S3") {
        Some(Confidentiality::S3)
    } else {
        None
    }
}

// ---------------------------------------------------------------------------
// Glob patterns
// ---------------------------------------------------------------------------

/// The rest of a pattern that starts with `**`: a `/` right after it is dropped.
pub open spec fn after_double_star(p: Seq<u8>) -> Seq<u8> {
    if p.len() >= 3 && p[2] == 47u8 {
        p.skip(3)
    } else {
        p.skip(2)
    }
}

/// Whether pattern `p` matches all of `s` (both as UTF-8 bytes). `**` matches any
/// text, `/` included, and a `/` right after it is dropped from the pattern; `*`
/// matches any text without `/`; every other byte matches itself.
pub open spec fn glob_matches(p: Seq<u8>, s: Seq<u8>) -> bool
    decreases p.len(), s.len(), 0int,
{
    if p.len() == 0 {
        s.len() == 0
    } else if p[0] == 42u8 {
        if p.len() >= 2 && p[1] == 42u8 {
            any_suffix_matches(after_double_star(p), s)
        } else {
            slash_free_suffix_matches(p.skip(1), s)
        }
    } else {
        s.len() > 0 && p[0] == s[0] && glob_matches(p.skip(1), s.skip(1))
    }
}

/// Whether `rest` matches some suffix of `s` (what `**` leaves to match).
pub open spec fn any_suffix_matches(rest: Seq<u8>, s: Seq<u8>) -> bool
    decreases rest.len(), s.len(), 1int,
{
    glob_matches(rest, s) || (s.len() > 0 && any_suffix_matches(rest, s.skip(1)))
}

/// Whether `rest` matches a suffix of `s` that follows a prefix without `/`
/// (what `*` leaves to match).
pub open spec fn slash_free_suffix_matches(rest: Seq<u8>, s: Seq<u8>) -> bool
    decreases rest.len(), s.len(), 1int,
{
    glob_matches(rest, s) || (s.len() > 0 && s[0] != 47u8 && slash_free_suffix_matches(rest, s.skip(1)))
}

/// Whether `p[pi..]` matches `s[si..]`.
fn glob_at(p: &[u8], pi: usize, s: &[u8], si: usize) -> (r: bool)
    requires
        pi <= p@.len(),
        si <= s@.len(),
    ensures
        r == glob_matches(p@.skip(pi as int), s@.skip(si as int)),
    decreases p@.len() - pi,
{
    let ghost ps = p@.skip(pi as int);
    let ghost ss = s@.skip(si as int);
    let plen = p.len();
    let slen = s.len();
    if pi == plen {
        assert(ps.len() == 0);
        assert(si == slen ==> ss.len() == 0);
        return si == slen;
    }
    assert(ps[0] == p@[pi as int]);
    if p[pi] == 42u8 {
        if pi + 1 < plen && p[pi + 1] == 42u8 {
            assert(ps[1] == p@[pi + 1]);
            let next = if pi + 2 < plen && p[pi + 2] == 47u8 {
                pi + 3
            } else {
                pi + 2
            };
            let ghost rest = p@.skip(next as int);
            assert(pi + 2 < plen ==> ps[2] == p@[pi + 2]);
            assert(rest =~= after_double_star(ps));
            assert(glob_matches(ps, ss) == any_suffix_matches(rest, ss));
            let mut k = si;
            while k < slen
                invariant
                    si <= k <= slen,
                    slen == s@.len(),
                    pi < next <= p@.len(),
                    rest == p@.skip(next as int),
                    ps == p@.skip(pi as int),
                    ss == s@.skip(si as int),
                    glob_matches(ps, ss) == any_suffix_matches(rest, ss),
                    any_suffix_matches(rest, ss) == any_suffix_matches(rest, s@.skip(k as int)),
                decreases slen - k,
            {
                if glob_at(p, next, s, k) {
                    return true;
                }
                assert(s@.skip(k as int).skip(1) =~= s@.skip(k + 1));
                k += 1;
            }
            let r = glob_at(p, next, s, k);
            assert(s@.skip(k as int).len() == 0);
            return r;
        } else {
            assert(!(ps.len() >= 2 && ps[1] == 42u8)) by {
                if ps.len() >= 2 {
                    assert(ps[1] == p@[pi + 1]);
                }
            }
            let np = pi + 1;
            let ghost rp = p@.skip(np as int);
            assert(rp =~= ps.skip(1));
            assert(glob_matches(ps, ss) == slash_free_suffix_matches(rp, ss));
            let mut k = si;
            while k < slen
                invariant
                    si <= k <= slen,
                    slen == s@.len(),
                    pi < np <= p@.len(),
                    rp == p@.skip(np as int),
                    ps == p@.skip(pi as int),
                    ss == s@.skip(si as int),
                    glob_matches(ps, ss) == slash_free_suffix_matches(rp, ss),
                    slash_free_suffix_matches(rp, ss) == slash_free_suffix_matches(rp, s@.skip(k as int)),
                decreases slen - k,
            {
                if glob_at(p, np, s, k) {
                    return true;
                }
                assert(s@.skip(k as int)[0] == s@[k as int]);
                if s[k] == 47u8 {
                    return false;
                }
                assert(s@.skip(k as int).skip(1) =~= s@.skip(k + 1));
                k += 1;
            }
            let r = glob_at(p, np, s, k);
            assert(s@.skip(k as int).len() == 0);
            return r;
        }
    }
    if si < slen && p[pi] == s[si] {
        let r = glob_at(p, pi + 1, s, si + 1);
        assert(p@.skip(pi + 1) =~= ps.skip(1));
        assert(s@.skip(si + 1) =~= ss.skip(1));
        assert(ss[0] == s@[si as int]);
        r
    } else {
        assert(si < slen ==> ss[0] == s@[si as int]);
        false
    }
}

/// Whether the pattern `pat` matches the whole of `s`.
pub fn glob_match_inner(pat: &[u8], s: &[u8]) -> (r: bool)
    ensures
        r == glob_matches(pat@, s@),
{
    let r = glob_at(pat, 0, s, 0);
    assert(pat@.skip(0) =~= pat@);
    assert(s@.skip(0) =~= s@);
    r
}

/// Whether `pattern` matches the whole of `path`, compared as UTF-8 bytes.
pub fn glob_match(pattern: &str, path: &str) -> (r: bool)
    ensures
        r == glob_matches(pattern.spec_bytes(), path.spec_bytes()),
{
    glob_match_inner(pattern.as_bytes(), path.as_bytes())
}

} // verus!

verus! {

// ---------------------------------------------------------------------------
// Paths
// ---------------------------------------------------------------------------

/// What std's `Path::strip_prefix` leaves of `path` once `base` is taken off its
/// front (component by component), as text; `None` when `base` is no prefix.
/// Components are split by the target's path rules: on Unix by `/` alone (a
/// backslash is a separator on Windows only).
pub uninterp spec fn path_strip_prefix(path: Seq<char>, base: Seq<char>) -> Option<Seq<char>>;

/// std's `Path::new(path).strip_prefix(base)`, as text. Claimed: the result is
/// `path_strip_prefix(path, base)`; how components are compared is not stated.
#[verifier::external_body]
fn strip_path_prefix(path: &str, base: &str) -> (r: Option<String>)
    ensures
        crate::message::opt_text(r) == path_strip_prefix(path@, base@),
{
    std::path::Path::new(path).strip_prefix(base).ok().map(|p| p.to_string_lossy().into_owned())
}

/// `s` with every backslash turned into a slash.
pub open spec fn forward_slashes(s: Seq<char>) -> Seq<char> {
    s.map_values(|c: char| if c == '\\' { '/' } else { c })
}

/// `file` relative to `cwd` with forward slashes: an absolute path (one that
/// starts with `/`) loses the `cwd` prefix when it has it; a relative path stays.
pub open spec fn relative_path(file: Seq<char>, cwd: Seq<char>) -> Seq<char> {
    let rel = if file.len() > 0 && file[0] == '/' {
        match path_strip_prefix(file, cwd) {
            Some(r) => r,
            None => file,
        }
    } else {
        file
    };
    forward_slashes(rel)
}

pub fn relativize(file: &str, cwd: &str) -> (r: String)
    ensures
        r@ == relative_path(file@, cwd@),
{
    let f = chars_of(file);
    let rel = if f.len() > 0 && f[0] == '/' {
        match strip_path_prefix(file, cwd) {
            Some(r) => r,
            None => string_of(&f),
        }
    } else {
        string_of(&f)
    };
    let v = chars_of(rel.as_str());
    let mut out: Vec<char> = Vec::new();
    let mut i: usize = 0;
    while i < v.len()
        invariant
            i <= v.len(),
            out@ == forward_slashes(v@.take(i as int)),
        decreases v.len() - i,
    {
        let c = v[i];
        out.push(if c == '\\' { '/' } else { c });
        assert(forward_slashes(v@.take(i + 1)) =~= forward_slashes(v@.take(i as int)).push(
            if c == '\\' { '/' } else { c },
        ));
        i += 1;
    }
    assert(v@.take(v.len() as int) =~= v@);
    string_of(&out)
}

// ---------------------------------------------------------------------------
// The configuration
// ---------------------------------------------------------------------------

/// The configuration file as read: an optional default level and path rules
/// (glob pattern, level name), in the order they were read.
pub struct RawConfig {
    pub default_confidentiality: Option<String>,
    /// The `paths` map of the file as a list of pairs: the rules are tried in
    /// this order, which is the order the map's entries came in.
    pub paths: Option<Vec<(String, String)>>,
}

/// The default level and the glob rules, tried in order.
pub struct SovereignConfig {
    default_level: Confidentiality,
    rules: Vec<(String, Confidentiality)>,
}

/// The rules whose level names read as levels, in order.
pub open spec fn readable_rules(paths: Seq<(String, String)>) -> Seq<(Seq<char>, Confidentiality)>
    decreases paths.len(),
{
    if paths.len() == 0 {
        Seq::empty()
    } else {
        let prev = readable_rules(paths.drop_last());
        match parse_level_spec(paths.last().1@) {
            Some(l) => prev.push((paths.last().0@, l)),
            None => prev,
        }
    }
}

/// The level of the first rule whose pattern matches `path` (as UTF-8 bytes).
pub open spec fn first_rule_level(rules: Seq<(Seq<char>, Confidentiality)>, path: Seq<char>) -> Option<Confidentiality>
    decreases rules.len(),
{
    if rules.len() == 0 {
        None
    } else if glob_matches(vstd::utf8::encode_utf8(rules[0].0), vstd::utf8::encode_utf8(path)) {
        Some(rules[0].1)
    } else {
        first_rule_level(rules.skip(1), path)
    }
}

impl SovereignConfig {
    pub closed spec fn default_level_spec(&self) -> Confidentiality {
        self.default_level
    }

    pub closed spec fn rules_spec(&self) -> Seq<(Seq<char>, Confidentiality)> {
        self.rules@.map_values(|r: (String, Confidentiality)| (r.0@, r.1))
    }

    /// The configuration from the file as read: an unreadable or missing default
    /// is `S2`, and rules with unreadable levels are dropped.
    pub fn from_raw(raw: RawConfig) -> (c: SovereignConfig)
        ensures
            c.default_level_spec() == match raw.default_confidentiality {
                Some(d) => match parse_level_spec(d@) {
                    Some(l) => l,
                    None => Confidentiality::S2,
                },
                None => Confidentiality::S2,
            },
            c.rules_spec() == readable_rules(match raw.paths {
                Some(ps) => ps@,
                None => Seq::empty(),
            }),
    {
        let default_level = match &raw.default_confidentiality {
            Some(d) => match parse_level(d.as_str()) {
                Some(l) => l,
                None => Confidentiality::S2,
            },
            None => Confidentiality::S2,
        };
        let paths = match raw.paths {
            Some(ps) => ps,
            None => Vec::new(),
        };
        let mut rules: Vec<(String, Confidentiality)> = Vec::new();
        let mut i: usize = 0;
        while i < paths.len()
            invariant
                i <= paths.len(),
                rules@.map_values(|r: (String, Confidentiality)| (r.0@, r.1)) == readable_rules(paths@.take(i as int)),
            decreases paths.len() - i,
        {
            assert(paths@.take(i + 1).drop_last() =~= paths@.take(i as int));
            let ghost before = rules@;
            match parse_level(paths[i].1.as_str()) {
                Some(l) => {
                    rules.push((paths[i].0.clone(), l));
                    assert(rules@.map_values(|r: (String, Confidentiality)| (r.0@, r.1)) =~= before.map_values(
                        |r: (String, Confidentiality)| (r.0@, r.1),
                    ).push((paths@[i as int].0@, l)));
                },
                None => {},
            }
            i += 1;
        }
        assert(paths@.take(paths.len() as int) =~= paths@);
        SovereignConfig { default_level, rules }
    }

    /// The level of one file: that of the first rule matching its path relative
    /// to `cwd`, else the default.
    pub open spec fn level_of(&self, file: Seq<char>, cwd: Seq<char>) -> Confidentiality {
        match first_rule_level(self.rules_spec(), relative_path(file, cwd)) {
            Some(l) => l,
            None => self.default_level_spec(),
        }
    }

    pub fn classify_one(&self, file: &str, cwd: &str) -> (r: Confidentiality)
        ensures
            r == self.level_of(file@, cwd@),
    {
        let rel = relativize(file, cwd);
        let ghost rs = self.rules_spec();
        let mut i: usize = 0;
        assert(rs.skip(0) =~= rs);
        while i < self.rules.len()
            invariant
                i <= self.rules.len(),
                rs == self.rules_spec(),
                rel@ == relative_path(file@, cwd@),
                first_rule_level(rs, rel@) == first_rule_level(rs.skip(i as int), rel@),
            decreases self.rules.len() - i,
        {
            let (pat, level) = &self.rules[i];
            assert(rs.skip(i as int)[0] == (pat@, *level));
            assert(rs.skip(i as int).skip(1) =~= rs.skip(i + 1));
            if glob_match(pat.as_str(), rel.as_str()) {
                return *level;
            }
            i += 1;
        }
        self.default_level
    }

    /// The most confidential level among `files`, or the default when there are
    /// none.
    pub fn classify(&self, files: &Vec<String>, cwd: &str) -> (r: Confidentiality)
        ensures
            files@.len() == 0 ==> r == self.default_level_spec(),
            files@.len() > 0 ==> (forall|i: int| 0 <= i < files@.len() ==> rank(self.level_of(#[trigger] files@[i]@, cwd@)) <= rank(r)),
            files@.len() > 0 ==> (exists|i: int| 0 <= i < files@.len() && r == self.level_of(#[trigger] files@[i]@, cwd@)),
    {
        if files.len() == 0 {
            return self.default_level;
        }
        let mut best = self.classify_one(files[0].as_str(), cwd);
        let mut i: usize = 1;
        while i < files.len()
            invariant
                1 <= i <= files.len(),
                forall|j: int| 0 <= j < i ==> rank(self.level_of(#[trigger] files@[j]@, cwd@)) <= rank(best),
                exists|j: int| 0 <= j < i && best == self.level_of(#[trigger] files@[j]@, cwd@),
            decreases files.len() - i,
        {
            let l = self.classify_one(files[i].as_str(), cwd);
            if l.rank_of() > best.rank_of() {
                best = l;
            }
            i += 1;
        }
        best
    }
}

} // verus!

verus! {

/// Whether `p` holds no `*`.
pub open spec fn is_literal(p: Seq<u8>) -> bool {
    forall|i: int| 0 <= i < p.len() ==> p[i] != 42u8
}

/// `**` matches every path.
pub proof fn lemma_double_star_matches_all(s: Seq<u8>)
    ensures
        glob_matches(seq![42u8, 42u8], s),
{
    let p = seq![42u8, 42u8];
    assert(after_double_star(p) =~= Seq::<u8>::empty());
    lemma_empty_rest_reaches_end(s);
}

proof fn lemma_empty_rest_reaches_end(s: Seq<u8>)
    ensures
        any_suffix_matches(Seq::<u8>::empty(), s),
    decreases s.len(),
{
    if s.len() > 0 {
        lemma_empty_rest_reaches_end(s.skip(1));
        assert(any_suffix_matches(Seq::<u8>::empty(), s) == (glob_matches(Seq::<u8>::empty(), s)
            || any_suffix_matches(Seq::<u8>::empty(), s.skip(1))));
    } else {
        assert(glob_matches(Seq::<u8>::empty(), s));
        assert(any_suffix_matches(Seq::<u8>::empty(), s) == (glob_matches(Seq::<u8>::empty(), s)
            || (s.len() > 0 && any_suffix_matches(Seq::<u8>::empty(), s.skip(1)))));
    }
}

/// A pattern without `*` matches exactly the path that it spells.
pub proof fn lemma_literal_pattern(p: Seq<u8>, s: Seq<u8>)
    requires
        is_literal(p),
    ensures
        glob_matches(p, s) <==> p == s,
    decreases p.len(),
{
    if p.len() > 0 {
        assert(is_literal(p.skip(1)));
        lemma_literal_pattern(p.skip(1), s.skip(1));
        if s.len() > 0 && p[0] == s[0] && p.skip(1) == s.skip(1) {
            assert(p =~= s) by {
                assert(p =~= seq![p[0]] + p.skip(1));
                assert(s =~= seq![s[0]] + s.skip(1));
            }
        }
        if p == s {
            assert(p.skip(1) == s.skip(1));
        }
    } else {
        if s.len() == 0 {
            assert(p =~= s);
        }
    }
}

/// `*` matches exactly the texts without `/`.
pub proof fn lemma_star_stays_in_segment(s: Seq<u8>)
    ensures
        glob_matches(seq![42u8], s) <==> (forall|i: int| 0 <= i < s.len() ==> s[i] != 47u8),
{
    assert(seq![42u8].skip(1) =~= Seq::<u8>::empty());
    lemma_slash_free_rest(s);
}

proof fn lemma_slash_free_rest(s: Seq<u8>)
    ensures
        slash_free_suffix_matches(Seq::<u8>::empty(), s) <==> (forall|i: int| 0 <= i < s.len() ==> s[i] != 47u8),
    decreases s.len(),
{
    assert(glob_matches(Seq::<u8>::empty(), s) == (s.len() == 0));
    if s.len() > 0 {
        lemma_slash_free_rest(s.skip(1));
        assert forall|i: int| 0 <= i < s.len() - 1 implies s.skip(1)[i] == s[i + 1] by {}
        if forall|i: int| 0 <= i < s.len() ==> s[i] != 47u8 {
            assert forall|i: int| 0 <= i < s.skip(1).len() implies s.skip(1)[i] != 47u8 by {
                assert(s[i + 1] != 47u8);
            }
        }
        if s[0] != 47u8 && slash_free_suffix_matches(Seq::<u8>::empty(), s.skip(1)) {
            assert forall|i: int| 0 <= i < s.len() implies s[i] != 47u8 by {
                if i > 0 {
                    assert(s.skip(1)[i - 1] != 47u8);
                }
            }
        }
    }
}

/// `dir/**` matches everything under `dir/` (for a `dir` without `*`).
pub proof fn lemma_dir_pattern_matches_below(dir: Seq<u8>, x: Seq<u8>)
    requires
        is_literal(dir),
    ensures
        glob_matches(dir + seq![47u8, 42u8, 42u8], dir + seq![47u8] + x),
    decreases dir.len(),
{
    let p = dir + seq![47u8, 42u8, 42u8];
    let s = dir + seq![47u8] + x;
    if dir.len() == 0 {
        assert(p =~= seq![47u8, 42u8, 42u8]);
        assert(s =~= seq![47u8] + x);
        assert(p.skip(1) =~= seq![42u8, 42u8]);
        assert(s.skip(1) =~= x);
        lemma_double_star_matches_all(x);
    } else {
        assert(is_literal(dir.skip(1)));
        lemma_dir_pattern_matches_below(dir.skip(1), x);
        assert(p.skip(1) =~= dir.skip(1) + seq![47u8, 42u8, 42u8]);
        assert(s.skip(1) =~= dir.skip(1) + seq![47u8] + x);
        assert(p[0] == dir[0]);
        assert(s[0] == dir[0]);
    }
}

} // verus!

verus! {

/// A leading `**/` may stand for no directory at all: whatever a pattern
/// matches, the pattern with `**/` before it matches too (so `**/*.py` matches
/// `main.py`).
pub proof fn lemma_leading_double_star_slash(q: Seq<u8>, s: Seq<u8>)
    requires
        glob_matches(q, s),
    ensures
        glob_matches(seq![42u8, 42u8, 47u8] + q, s),
{
    let p = seq![42u8, 42u8, 47u8] + q;
    assert(p[0] == 42u8 && p[1] == 42u8 && p[2] == 47u8);
    assert(after_double_star(p) =~= q);
    assert(any_suffix_matches(q, s) == (glob_matches(q, s) || (s.len() > 0 && any_suffix_matches(
        q,
        s.skip(1),
    ))));
}

/// And it also matches below any directories: `**/q` matches `d/s` whenever
/// `q` matches `s`.
pub proof fn lemma_leading_double_star_below(q: Seq<u8>, d: Seq<u8>, s: Seq<u8>)
    requires
        glob_matches(q, s),
    ensures
        glob_matches(seq![42u8, 42u8, 47u8] + q, d + seq![47u8] + s),
{
    let p = seq![42u8, 42u8, 47u8] + q;
    assert(p[0] == 42u8 && p[1] == 42u8 && p[2] == 47u8);
    assert(after_double_star(p) =~= q);
    let k = d.len() + 1;
    assert((d + seq![47u8] + s).skip(k as int) =~= s);
    lemma_suffix_reached(q, d + seq![47u8] + s, k as int);
}

proof fn lemma_suffix_reached(q: Seq<u8>, t: Seq<u8>, k: int)
    requires
        0 <= k <= t.len(),
        glob_matches(q, t.skip(k)),
    ensures
        any_suffix_matches(q, t),
    decreases k,
{
    if k == 0 {
        assert(t.skip(0) =~= t);
    } else {
        assert(t.skip(1).skip(k - 1) =~= t.skip(k));
        lemma_suffix_reached(q, t.skip(1), k - 1);
    }
    assert(any_suffix_matches(q, t) == (glob_matches(q, t) || (t.len() > 0 && any_suffix_matches(
        q,
        t.skip(1),
    ))));
}

} // verus!
