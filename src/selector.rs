//! Label and field selectors: a comma separated list of `key<op>value`
//! requirements, with `op` one of `!=`, `==` and `=`.
use vstd::prelude::*;

verus! {

/// How the value of a requirement is compared.
#[derive(Debug, Clone, Copy, PartialEq, Eq, Structural)]
pub enum Operator {
    Equals,
    NotEquals,
}

/// Why a selector string could not be parsed.
#[derive(Debug, Clone, Copy, PartialEq, Eq, Structural)]
pub enum ParseError {
    /// A requirement holds none of `!=`, `==` and `=`.
    InvalidOperator,
    /// A requirement has an empty key or an empty value.
    InvalidKeyValuePair,
}

/// One `(key, value, operator)` requirement.
pub type Requirement = (String, String, Operator);

/// The mathematical value of a requirement.
pub type RequirementModel = (Seq<char>, Seq<char>, Operator);

pub open spec fn requirement_model(r: Requirement) -> RequirementModel {
    (r.0@, r.1@, r.2)
}

/// An ordered sequence of requirements.
#[derive(Debug, PartialEq)]
pub struct Selector {
    requirements: Vec<Requirement>,
}

impl View for Selector {
    type V = Seq<RequirementModel>;

    closed spec fn view(&self) -> Seq<RequirementModel> {
        models(self.requirements@)
    }
}

/// The models of requirements, in order.
pub open spec fn models(v: Seq<Requirement>) -> Seq<RequirementModel> {
    v.map_values(|r: Requirement| requirement_model(r))
}

/// The views of strings, in order.
pub open spec fn views(v: Seq<String>) -> Seq<Seq<char>> {
    v.map_values(|x: String| x@)
}

/// `s` split at every occurrence of `c`; always at least one piece.
pub open spec fn split_on(s: Seq<char>, c: char) -> Seq<Seq<char>>
    decreases s.len(),
{
    if s.len() == 0 {
        seq![Seq::empty()]
    } else {
        let pre = split_on(s.drop_last(), c);
        if s.last() == c {
            pre.push(Seq::empty())
        } else {
            pre.update(pre.len() - 1, pre.last().push(s.last()))
        }
    }
}

/// The first position at or after `i` where `pat` occurs in `s`, or -1.
pub open spec fn find_from(s: Seq<char>, pat: Seq<char>, i: int) -> int
    decreases s.len() + 1 - i,
{
    if i < 0 || i + pat.len() > s.len() {
        -1
    } else if s.subrange(i, i + pat.len()) == pat {
        i
    } else {
        find_from(s, pat, i + 1)
    }
}

/// The first position where `pat` occurs in `s`, or -1.
pub open spec fn find(s: Seq<char>, pat: Seq<char>) -> int {
    find_from(s, pat, 0)
}

pub open spec fn not_equals_op() -> Seq<char> {
    seq!['!', '=']
}

pub open spec fn double_equals_op() -> Seq<char> {
    seq!['=', '=']
}

pub open spec fn equals_op() -> Seq<char> {
    seq!['=']
}

/// Cuts `p` around the operator of width `w` found at `i`.
pub open spec fn cut_at(p: Seq<char>, i: int, w: int, op: Operator) -> Result<
    RequirementModel,
    ParseError,
> {
    let key = p.subrange(0, i);
    let value = p.subrange(i + w, p.len() as int);
    if key.len() == 0 || value.len() == 0 {
        Err(ParseError::InvalidKeyValuePair)
    } else {
        Ok((key, value, op))
    }
}

/// One requirement: the operators are probed in the order `!=`, `==`, `=`,
/// and the first that occurs splits the text once, at its first occurrence.
pub open spec fn parse_requirement(p: Seq<char>) -> Result<RequirementModel, ParseError> {
    if find(p, not_equals_op()) >= 0 {
        cut_at(p, find(p, not_equals_op()), 2, Operator::NotEquals)
    } else if find(p, double_equals_op()) >= 0 {
        cut_at(p, find(p, double_equals_op()), 2, Operator::Equals)
    } else if find(p, equals_op()) >= 0 {
        cut_at(p, find(p, equals_op()), 1, Operator::Equals)
    } else {
        Err(ParseError::InvalidOperator)
    }
}

/// Every piece parsed in order; the first piece that fails decides the error.
pub open spec fn parse_requirements(pieces: Seq<Seq<char>>) -> Result<
    Seq<RequirementModel>,
    ParseError,
>
    decreases pieces.len(),
{
    if pieces.len() == 0 {
        Ok(Seq::empty())
    } else {
        match parse_requirements(pieces.drop_last()) {
            Err(e) => Err(e),
            Ok(rs) => match parse_requirement(pieces.last()) {
                Err(e) => Err(e),
                Ok(r) => Ok(rs.push(r)),
            },
        }
    }
}

/// What a selector string means: the empty string is the empty selector.
pub open spec fn parse_selector(s: Seq<char>) -> Result<Seq<RequirementModel>, ParseError> {
    if s.len() == 0 {
        Ok(Seq::empty())
    } else {
        parse_requirements(split_on(s, ','))
    }
}

proof fn lemma_split_on_nonempty(s: Seq<char>, c: char)
    ensures
        split_on(s, c).len() >= 1,
    decreases s.len(),
{
    if s.len() > 0 {
        lemma_split_on_nonempty(s.drop_last(), c);
    }
}

/// The first position where `pat` occurs in `s`.
pub(crate) fn find_pattern(s: &str, n: usize, pat: &str, m: usize) -> (r: Option<usize>)
    requires
        n == s@.len(),
        m == pat@.len(),
    ensures
        match r {
            Some(i) => find(s@, pat@) == i && i + m <= n,
            None => find(s@, pat@) == -1,
        },
{
    if m > n {
        return None;
    }
    if m == 0 {
        assert(s@.subrange(0, 0) =~= pat@);
        return Some(0);
    }
    let mut i: usize = 0;
    while i <= n - m
        invariant
            n == s@.len(),
            m == pat@.len(),
            0 < m <= n,
            i <= n - m + 1,
            find(s@, pat@) == find_from(s@, pat@, i as int),
        decreases n + 1 - i,
    {
        let mut j: usize = 0;
        let mut same = true;
        while j < m && same
            invariant
                n == s@.len(),
                m == pat@.len(),
                i + m <= n,
                j <= m,
                same ==> forall|k: int| 0 <= k < j ==> s@[i + k] == pat@[k],
                !same ==> s@.subrange(i as int, i + m) != pat@,
            decreases 2 * (m - j) + (if same { 1int } else { 0int }),
        {
            if s.get_char(i + j) != pat.get_char(j) {
                same = false;
                assert(s@.subrange(i as int, i + m)[j as int] != pat@[j as int]);
            } else {
                j = j + 1;
            }
        }
        if same {
            assert(s@.subrange(i as int, i + m) =~= pat@);
            return Some(i);
        }
        i = i + 1;
    }
    None
}

/// Parses one requirement.
fn parse_piece(p: &str) -> (r: Result<Requirement, ParseError>)
    ensures
        match r {
            Ok(req) => parse_requirement(p@) == Ok::<RequirementModel, ParseError>(
                requirement_model(req),
            ),
            Err(e) => parse_requirement(p@) == Err::<RequirementModel, ParseError>(e),
        },
{
    proof {
        reveal_strlit("!=");
        reveal_strlit("==");
        reveal_strlit("=");
        assert("!="@ =~= not_equals_op());
        assert("=="@ =~= double_equals_op());
        assert("="@ =~= equals_op());
    }
    let n = p.unicode_len();
    let (at, width, op) = match find_pattern(p, n, "!=", 2) {
        Some(i) => (i, 2usize, Operator::NotEquals),
        None => match find_pattern(p, n, "==", 2) {
            Some(i) => (i, 2usize, Operator::Equals),
            None => match find_pattern(p, n, "=", 1) {
                Some(i) => (i, 1usize, Operator::Equals),
                None => {
                    return Err(ParseError::InvalidOperator);
                },
            },
        },
    };
    if at == 0 || at + width == n {
        return Err(ParseError::InvalidKeyValuePair);
    }
    let key = p.substring_char(0, at).to_owned();
    let value = p.substring_char(at + width, n).to_owned();
    Ok((key, value, op))
}

/// Splits `s` at every comma.
fn split_commas(s: &str) -> (r: Vec<String>)
    ensures
        views(r@) == split_on(s@, ','),
{
    let n = s.unicode_len();
    let mut pieces: Vec<String> = Vec::new();
    let mut start: usize = 0;
    let mut i: usize = 0;
    assert(s@.subrange(0, 0) =~= Seq::<char>::empty());
    assert(views(pieces@).push(s@.subrange(0, 0)) =~= split_on(Seq::<char>::empty(), ','));
    while i < n
        invariant
            n == s@.len(),
            start <= i <= n,
            views(pieces@).push(s@.subrange(start as int, i as int))
                == split_on(s@.subrange(0, i as int), ','),
        decreases n - i,
    {
        let c = s.get_char(i);
        proof {
            let pre = s@.subrange(0, i as int);
            let cur = s@.subrange(0, i + 1);
            assert(cur.drop_last() =~= pre);
            assert(cur.last() == c);
            lemma_split_on_nonempty(pre, ',');
        }
        if c == ',' {
            let piece = s.substring_char(start, i).to_owned();
            pieces.push(piece);
            start = i + 1;
            proof {
                assert(views(pieces@) =~= views(pieces@.drop_last()).push(piece@));
                assert(s@.subrange(start as int, i + 1) =~= Seq::<char>::empty());
            }
        } else {
            proof {
                assert(s@.subrange(start as int, i + 1) =~= s@.subrange(
                    start as int,
                    i as int,
                ).push(c));
            }
        }
        i = i + 1;
        proof {
            let v = views(pieces@);
            let w = split_on(s@.subrange(0, i as int), ',');
            assert(v.push(s@.subrange(start as int, i as int)) =~= w);
        }
    }
    let last = s.substring_char(start, n).to_owned();
    pieces.push(last);
    proof {
        assert(s@.subrange(0, n as int) =~= s@);
        let v = views(pieces@);
        assert(v =~= views(pieces@.drop_last()).push(last@));
    }
    pieces
}

impl Selector {
    /// Parses `input` into a selector; the empty string gives the empty
    /// selector.
    pub fn from_string(input: &str) -> (r: Result<Selector, ParseError>)
        ensures
            match r {
                Ok(sel) => parse_selector(input@) == Ok::<
                    Seq<RequirementModel>,
                    ParseError,
                >(sel@),
                Err(e) => parse_selector(input@) == Err::<Seq<RequirementModel>, ParseError>(e),
            },
    {
        let mut requirements: Vec<Requirement> = Vec::new();
        if input.unicode_len() == 0 {
            let sel = Selector { requirements };
            assert(sel@ =~= Seq::<RequirementModel>::empty());
            return Ok(sel);
        }
        let pieces = split_commas(input);
        let ghost pv = views(pieces@);
        let mut k: usize = 0;
        assert(pv.take(0) =~= Seq::<Seq<char>>::empty());
        assert(models(requirements@) =~= Seq::<
            RequirementModel,
        >::empty());
        while k < pieces.len()
            invariant
                k <= pieces@.len(),
                input@.len() > 0,
                pv == views(pieces@),
                pv == split_on(input@, ','),
                parse_requirements(pv.take(k as int)) == Ok::<
                    Seq<RequirementModel>,
                    ParseError,
                >(models(requirements@)),
            decreases pieces.len() - k,
        {
            let res = parse_piece(pieces[k].as_str());
            proof {
                assert(pv.take(k + 1).drop_last() =~= pv.take(k as int));
                assert(pv.take(k + 1).last() == pieces@[k as int]@);
            }
            match res {
                Ok(req) => {
                    let ghost before = models(requirements@);
                    requirements.push(req);
                    proof {
                        assert(parse_requirements(pv.take(k + 1)) == Ok::<
                            Seq<RequirementModel>,
                            ParseError,
                        >(before.push(requirement_model(req))));
                        assert(models(requirements@) =~= before.push(requirement_model(req)));
                    }
                },
                Err(e) => {
                    proof {
                        assert(parse_requirements(pv.take(k + 1)) == Err::<
                            Seq<RequirementModel>,
                            ParseError,
                        >(e));
                        lemma_parse_error_persists(pv, k + 1);
                    }
                    return Err(e);
                },
            }
            k = k + 1;
        }
        assert(pv.take(k as int) =~= pv);
        Ok(Selector { requirements })
    }

    /// Builds a selector from requirements given in order.
    pub fn from_requirements(requirements: Vec<Requirement>) -> (r: Selector)
        ensures
            r@ == models(requirements@),
    {
        Selector { requirements }
    }

    /// The requirements, in order.
    pub fn requirements(&self) -> (r: &Vec<Requirement>)
        ensures
            models(r@) == self@,
    {
        &self.requirements
    }
}

impl std::ops::Deref for Selector {
    type Target = Vec<Requirement>;

    fn deref(&self) -> (r: &Vec<Requirement>)
        ensures
            models(r@) == self@,
    {
        &self.requirements
    }
}

/// Once a prefix of the pieces fails to parse, every longer prefix fails
/// with the same error.
proof fn lemma_parse_error_persists(pieces: Seq<Seq<char>>, k: int)
    requires
        0 <= k <= pieces.len(),
        parse_requirements(pieces.take(k)) is Err,
    ensures
        parse_requirements(pieces) == parse_requirements(pieces.take(k)),
    decreases pieces.len() - k,
{
    if k < pieces.len() {
        assert(pieces.take(k + 1).drop_last() =~= pieces.take(k));
        lemma_parse_error_persists(pieces, k + 1);
    } else {
        assert(pieces.take(k) =~= pieces);
    }
}

/// Text that holds no `,`, `=` or `!`.
pub open spec fn is_plain(s: Seq<char>) -> bool {
    &&& s.len() > 0
    &&& forall|i: int| 0 <= i < s.len() ==> s[i] != ',' && s[i] != '=' && s[i] != '!'
}

/// The operator that a spelling `=`, `==` or `!=` stands for.
pub open spec fn spelled_operator(spelling: Seq<char>) -> Operator {
    if spelling == not_equals_op() {
        Operator::NotEquals
    } else {
        Operator::Equals
    }
}

pub open spec fn is_spelling(spelling: Seq<char>) -> bool {
    spelling == not_equals_op() || spelling == double_equals_op() || spelling == equals_op()
}

/// A requirement written out: key, operator spelling, value.
pub open spec fn written(r: (Seq<char>, Seq<char>, Seq<char>)) -> Seq<char> {
    r.0 + r.1 + r.2
}

/// Requirements written out and joined by commas.
pub open spec fn joined(rs: Seq<(Seq<char>, Seq<char>, Seq<char>)>) -> Seq<char>
    decreases rs.len(),
{
    if rs.len() == 0 {
        Seq::empty()
    } else if rs.len() == 1 {
        written(rs[0])
    } else {
        joined(rs.drop_last()) + seq![','] + written(rs.last())
    }
}

pub open spec fn well_formed(r: (Seq<char>, Seq<char>, Seq<char>)) -> bool {
    is_plain(r.0) && is_plain(r.2) && is_spelling(r.1)
}

pub open spec fn expected_model(r: (Seq<char>, Seq<char>, Seq<char>)) -> RequirementModel {
    (r.0, r.2, spelled_operator(r.1))
}

proof fn lemma_split_append_free(x: Seq<char>, b: Seq<char>, c: char)
    requires
        forall|i: int| 0 <= i < b.len() ==> b[i] != c,
    ensures
        split_on(x + b, c) == split_on(x, c).update(
            split_on(x, c).len() - 1,
            split_on(x, c).last() + b,
        ),
    decreases b.len(),
{
    lemma_split_on_nonempty(x, c);
    if b.len() == 0 {
        assert(x + b =~= x);
        assert(split_on(x, c).last() + b =~= split_on(x, c).last());
        assert(split_on(x, c).update(split_on(x, c).len() - 1, split_on(x, c).last())
            =~= split_on(x, c));
    } else {
        let b2 = b.drop_last();
        lemma_split_append_free(x, b2, c);
        assert((x + b).drop_last() =~= x + b2);
        assert((x + b).last() == b.last());
        lemma_split_on_nonempty(x + b2, c);
        assert((split_on(x, c).last() + b2).push(b.last()) =~= split_on(x, c).last() + b);
        assert(split_on(x + b, c) =~= split_on(x, c).update(
            split_on(x, c).len() - 1,
            split_on(x, c).last() + b,
        ));
    }
}

proof fn lemma_find_from_first(s: Seq<char>, pat: Seq<char>, i: int, m: int)
    requires
        0 <= i <= m,
        m + pat.len() <= s.len(),
        s.subrange(m, m + pat.len()) == pat,
        forall|j: int| i <= j < m ==> #[trigger] s.subrange(j, j + pat.len()) != pat,
    ensures
        find_from(s, pat, i) == m,
    decreases m - i,
{
    if i < m {
        lemma_find_from_first(s, pat, i + 1, m);
    }
}

proof fn lemma_find_from_none(s: Seq<char>, pat: Seq<char>, i: int)
    requires
        0 <= i,
        forall|j: int|
            i <= j && j + pat.len() <= s.len() ==> #[trigger] s.subrange(j, j + pat.len()) != pat,
    ensures
        find_from(s, pat, i) == -1,
    decreases s.len() + 1 - i,
{
    if i + pat.len() <= s.len() {
        lemma_find_from_none(s, pat, i + 1);
    }
}

proof fn lemma_parse_written(r: (Seq<char>, Seq<char>, Seq<char>))
    requires
        well_formed(r),
    ensures
        parse_requirement(written(r)) == Ok::<RequirementModel, ParseError>(expected_model(r)),
{
    let (k, sp, v) = r;
    let p = written(r);
    let n: int = k.len() as int;
    let w: int = sp.len() as int;
    assert(p =~= k + sp + v);
    assert(p.subrange(n, n + w) =~= sp);
    assert forall|j: int| 0 <= j < n implies p[j] == k[j] && p[j] != '=' && p[j] != '!' by {}
    assert forall|j: int| n + sp.len() <= j < p.len() implies p[j] == v[j - n - sp.len()]
        && p[j] != '=' && p[j] != '!' by {}
    let ne = not_equals_op();
    let de = double_equals_op();
    let eq = equals_op();
    if sp == ne {
        assert forall|j: int| 0 <= j < n implies #[trigger] p.subrange(j, j + ne.len()) != ne by {
            assert(p.subrange(j, j + 2)[0] == p[j]);
        }
        lemma_find_from_first(p, ne, 0, n);
    } else {
        assert forall|j: int| 0 <= j && j + ne.len() <= p.len() implies #[trigger] p.subrange(j, j + ne.len()) != ne by {
            assert(p.subrange(j, j + 2)[0] == p[j]);
            if n <= j < n + sp.len() {
                assert(p[j] == sp[j - n]);
            }
        }
        lemma_find_from_none(p, ne, 0);
        if sp == de {
            assert forall|j: int| 0 <= j < n implies #[trigger] p.subrange(j, j + de.len()) != de by {
                assert(p.subrange(j, j + 2)[0] == p[j]);
            }
            lemma_find_from_first(p, de, 0, n);
        } else {
            assert forall|j: int| 0 <= j && j + de.len() <= p.len() implies #[trigger] p.subrange(
                j,
                j + de.len(),
            ) != de by {
                assert(p.subrange(j, j + 2)[0] == p[j]);
                assert(p.subrange(j, j + 2)[1] == p[j + 1]);
                if j == n {
                    assert(p[j + 1] == v[0]);
                }
            }
            lemma_find_from_none(p, de, 0);
            assert forall|j: int| 0 <= j < n implies #[trigger] p.subrange(j, j + eq.len()) != eq by {
                assert(p.subrange(j, j + 1)[0] == p[j]);
            }
            lemma_find_from_first(p, eq, 0, n);
        }
    }
    assert(p.subrange(0, n) =~= k);
    assert(p.subrange(n + w, p.len() as int) =~= v);
}

proof fn lemma_split_joined(rs: Seq<(Seq<char>, Seq<char>, Seq<char>)>)
    requires
        rs.len() > 0,
        forall|i: int| 0 <= i < rs.len() ==> well_formed(#[trigger] rs[i]),
    ensures
        split_on(joined(rs), ',') == rs.map_values(
            |r: (Seq<char>, Seq<char>, Seq<char>)| written(r),
        ),
    decreases rs.len(),
{
    let last = written(rs.last());
    assert(well_formed(rs[rs.len() - 1]));
    assert forall|i: int| 0 <= i < last.len() implies last[i] != ',' by {
        let (k, sp, v) = rs.last();
        assert(last =~= k + sp + v);
        if i < k.len() {
        } else if i < k.len() + sp.len() {
            assert(last[i] == sp[i - k.len()]);
        } else {
            assert(last[i] == v[i - k.len() - sp.len()]);
        }
    }
    if rs.len() == 1 {
        lemma_split_append_free(Seq::empty(), last, ',');
        assert(Seq::<char>::empty() + last =~= last);
        assert(split_on(Seq::<char>::empty(), ',') =~= seq![Seq::<char>::empty()]);
        assert(Seq::<char>::empty() + last =~= last);
        assert(rs.map_values(|r: (Seq<char>, Seq<char>, Seq<char>)| written(r)) =~= seq![last]);
    } else {
        let pre = rs.drop_last();
        assert forall|i: int| 0 <= i < pre.len() implies well_formed(#[trigger] pre[i]) by {
            assert(pre[i] == rs[i]);
        }
        lemma_split_joined(pre);
        let a = joined(pre).push(',');
        assert(joined(rs) =~= a + last);
        lemma_split_append_free(a, last, ',');
        assert(a.drop_last() =~= joined(pre));
        lemma_split_on_nonempty(joined(pre), ',');
        assert(split_on(a, ',') == split_on(joined(pre), ',').push(Seq::empty()));
        assert(Seq::<char>::empty() + last =~= last);
        assert(rs.map_values(|r: (Seq<char>, Seq<char>, Seq<char>)| written(r)) =~= pre.map_values(
            |r: (Seq<char>, Seq<char>, Seq<char>)| written(r),
        ).push(last));
        assert(split_on(joined(rs), ',') =~= split_on(joined(pre), ',').push(last));
    }
}

proof fn lemma_parse_all_written(rs: Seq<(Seq<char>, Seq<char>, Seq<char>)>)
    requires
        forall|i: int| 0 <= i < rs.len() ==> well_formed(#[trigger] rs[i]),
    ensures
        parse_requirements(rs.map_values(|r: (Seq<char>, Seq<char>, Seq<char>)| written(r)))
            == Ok::<Seq<RequirementModel>, ParseError>(
            rs.map_values(|r: (Seq<char>, Seq<char>, Seq<char>)| expected_model(r)),
        ),
    decreases rs.len(),
{
    let ws = rs.map_values(|r: (Seq<char>, Seq<char>, Seq<char>)| written(r));
    if rs.len() == 0 {
        assert(ws =~= Seq::<Seq<char>>::empty());
        assert(rs.map_values(|r: (Seq<char>, Seq<char>, Seq<char>)| expected_model(r))
            =~= Seq::<RequirementModel>::empty());
    } else {
        let pre = rs.drop_last();
        assert forall|i: int| 0 <= i < pre.len() implies well_formed(#[trigger] pre[i]) by {
            assert(pre[i] == rs[i]);
        }
        lemma_parse_all_written(pre);
        assert(ws.drop_last() =~= pre.map_values(
            |r: (Seq<char>, Seq<char>, Seq<char>)| written(r),
        ));
        assert(well_formed(rs[rs.len() - 1]));
        lemma_parse_written(rs.last());
        assert(rs.map_values(|r: (Seq<char>, Seq<char>, Seq<char>)| expected_model(r))
            =~= pre.map_values(|r: (Seq<char>, Seq<char>, Seq<char>)| expected_model(r)).push(
            expected_model(rs.last()),
        ));
    }
}

/// Well-formed requirements joined by commas parse back to exactly those
/// requirements, in order, each with the operator its spelling names.
pub proof fn lemma_parse_joined(rs: Seq<(Seq<char>, Seq<char>, Seq<char>)>)
    requires
        rs.len() > 0,
        forall|i: int| 0 <= i < rs.len() ==> well_formed(#[trigger] rs[i]),
    ensures
        parse_selector(joined(rs)) == Ok::<Seq<RequirementModel>, ParseError>(
            rs.map_values(|r: (Seq<char>, Seq<char>, Seq<char>)| expected_model(r)),
        ),
{
    lemma_split_joined(rs);
    lemma_parse_all_written(rs);
    assert(well_formed(rs[0]));
    lemma_joined_nonempty(rs);
}

proof fn lemma_joined_nonempty(rs: Seq<(Seq<char>, Seq<char>, Seq<char>)>)
    requires
        rs.len() > 0,
        well_formed(rs[0]),
    ensures
        joined(rs).len() > 0,
    decreases rs.len(),
{
    if rs.len() > 1 {
        assert(rs.drop_last()[0] == rs[0]);
        lemma_joined_nonempty(rs.drop_last());
    }
}

} // verus!
