use vstd::prelude::*;

verus! {

// The soundfont list file is a sequence of `sf.` directives. A scan walks
// the text looking for the next token of the shape `sf.` followed by a run
// of lowercase letters; `sf.start` opens a region, `sf.path` and
// `sf.enabled` read the rest of their line as a value (three characters,
// normally " = ", are skipped first), and `sf.end` emits the region.

/// One entry of a soundfont list file.
#[derive(Clone, PartialEq, Eq, Debug)]
pub struct SFRegion {
    pub path: Vec<char>,
    pub enabled: bool,
}

impl Default for SFRegion {
    fn default() -> (d: Self)
        ensures
            d.path@.len() == 0,
            d.enabled == false,
    {
        SFRegion { path: Vec::new(), enabled: false }
    }
}

/// Whether an `sf.` token starts at position `i`.
pub open spec fn sf_token_at(t: Seq<char>, i: int) -> bool {
    &&& i + 3 <= t.len()
    &&& t[i] == 's'
    &&& t[i + 1] == 'f'
    &&& t[i + 2] == '.'
}

/// Position of the first `sf.` token at or after `from`.
pub open spec fn next_sf_token(t: Seq<char>, from: int) -> Option<int>
    decreases t.len() - from,
{
    if from + 3 > t.len() {
        None
    } else if sf_token_at(t, from) {
        Some(from)
    } else {
        next_sf_token(t, from + 1)
    }
}

/// End of the maximal lowercase run starting at `from`.
pub open spec fn lower_run_end(t: Seq<char>, from: int) -> int
    decreases t.len() - from,
{
    if 0 <= from < t.len() && 'a' <= t[from] <= 'z' {
        lower_run_end(t, from + 1)
    } else {
        from
    }
}

/// First line break (or the end of the text) at or after `from`.
pub open spec fn line_end(t: Seq<char>, from: int) -> int
    decreases t.len() - from,
{
    if from >= t.len() {
        t.len() as int
    } else if t[from] == '\n' || t[from] == '\r' {
        from
    } else {
        line_end(t, from + 1)
    }
}

pub open spec fn tok_start() -> Seq<char> {
    seq!['s', 'f', '.', 's', 't', 'a', 'r', 't']
}

pub open spec fn tok_path() -> Seq<char> {
    seq!['s', 'f', '.', 'p', 'a', 't', 'h']
}

pub open spec fn tok_enabled() -> Seq<char> {
    seq!['s', 'f', '.', 'e', 'n', 'a', 'b', 'l', 'e', 'd']
}

pub open spec fn tok_end() -> Seq<char> {
    seq!['s', 'f', '.', 'e', 'n', 'd']
}

/// Start of a directive's value: three characters (normally " = ") past
/// the token, clamped to the text.
pub open spec fn value_start(t: Seq<char>, e: int) -> int {
    if e + 3 <= t.len() {
        e + 3
    } else {
        t.len() as int
    }
}

/// The regions a soundfont list text parses to, from a scan position, with
/// the partial region gathered so far and the regions already emitted.
pub open spec fn parse_sf_spec(
    t: Seq<char>,
    pos: int,
    region: (Seq<char>, bool),
    acc: Seq<(Seq<char>, bool)>,
) -> Seq<(Seq<char>, bool)>
    decreases t.len() - pos,
{
    if pos < 0 || pos > t.len() {
        acc
    } else {
        match next_sf_token(t, pos) {
            None => acc,
            Some(s) => {
                let e = lower_run_end(t, s + 3);
                let tok = t.subrange(s, e);
                proof {
                    lemma_next_sf_token_bounds(t, pos);
                    lemma_lower_run_end_bounds(t, s + 3);
                    lemma_line_end_bounds(t, value_start(t, e));
                }
                if tok == tok_start() {
                    parse_sf_spec(t, e, (Seq::empty(), false), acc)
                } else if tok == tok_path() {
                    let vs = value_start(t, e);
                    let le = line_end(t, vs);
                    parse_sf_spec(t, le, (t.subrange(vs, le), region.1), acc)
                } else if tok == tok_enabled() {
                    let vs = value_start(t, e);
                    let le = line_end(t, vs);
                    parse_sf_spec(t, le, (region.0, t.subrange(vs, le) == seq!['1']), acc)
                } else if tok == tok_end() {
                    parse_sf_spec(t, e, region, acc.push(region))
                } else {
                    parse_sf_spec(t, e, region, acc)
                }
            },
        }
    }
}

/// The view of a parsed region list: each entry as its path and flag.
pub open spec fn regions_view(v: Seq<SFRegion>) -> Seq<(Seq<char>, bool)> {
    Seq::new(v.len(), |i: int| (v[i].path@, v[i].enabled))
}

pub proof fn lemma_next_sf_token_bounds(t: Seq<char>, from: int)
    requires
        0 <= from,
    ensures
        next_sf_token(t, from) matches Some(s) ==> from <= s && s + 3 <= t.len() && sf_token_at(
            t,
            s,
        ),
    decreases t.len() - from,
{
    if from + 3 > t.len() {
    } else if sf_token_at(t, from) {
    } else {
        lemma_next_sf_token_bounds(t, from + 1);
    }
}

pub proof fn lemma_lower_run_end_bounds(t: Seq<char>, from: int)
    requires
        0 <= from <= t.len(),
    ensures
        from <= lower_run_end(t, from) <= t.len(),
    decreases t.len() - from,
{
    if 0 <= from < t.len() && 'a' <= t[from] <= 'z' {
        lemma_lower_run_end_bounds(t, from + 1);
    }
}

pub proof fn lemma_line_end_bounds(t: Seq<char>, from: int)
    requires
        0 <= from <= t.len(),
    ensures
        from <= line_end(t, from) <= t.len(),
    decreases t.len() - from,
{
    if from >= t.len() {
    } else if t[from] == '\n' || t[from] == '\r' {
    } else {
        lemma_line_end_bounds(t, from + 1);
    }
}

fn next_sf_token_exec(text: &Vec<char>, from: usize) -> (r: Option<usize>)
    requires
        from <= text@.len(),
    ensures
        match r {
            Some(s) => next_sf_token(text@, from as int) == Some(s as int) && from <= s && s + 3
                <= text@.len() && sf_token_at(text@, s as int),
            None => next_sf_token(text@, from as int) is None,
        },
{
    let mut i = from;
    while text.len() - i >= 3
        invariant
            from <= i <= text@.len(),
            next_sf_token(text@, from as int) == next_sf_token(text@, i as int),
        decreases text@.len() - i,
    {
        if text[i] == 's' && text[i + 1] == 'f' && text[i + 2] == '.' {
            proof {
                lemma_next_sf_token_bounds(text@, i as int);
            }
            return Some(i);
        }
        i = i + 1;
    }
    None
}

fn lower_run_end_exec(text: &Vec<char>, from: usize) -> (r: usize)
    requires
        from <= text@.len(),
    ensures
        r == lower_run_end(text@, from as int),
        from <= r <= text@.len(),
{
    let mut i = from;
    while i < text.len() && 'a' <= text[i] && text[i] <= 'z'
        invariant
            from <= i <= text@.len(),
            lower_run_end(text@, from as int) == lower_run_end(text@, i as int),
        decreases text@.len() - i,
    {
        i = i + 1;
    }
    i
}

fn line_end_exec(text: &Vec<char>, from: usize) -> (r: usize)
    requires
        from <= text@.len(),
    ensures
        r == line_end(text@, from as int),
        from <= r <= text@.len(),
{
    let mut i = from;
    while i < text.len() && text[i] != '\n' && text[i] != '\r'
        invariant
            from <= i <= text@.len(),
            line_end(text@, from as int) == line_end(text@, i as int),
        decreases text@.len() - i,
    {
        i = i + 1;
    }
    i
}

/// Whether `text[s..e]` is exactly the given keyword.
fn token_is(text: &Vec<char>, s: usize, e: usize, word: &Vec<char>) -> (r: bool)
    requires
        s <= e <= text@.len(),
    ensures
        r == (text@.subrange(s as int, e as int) == word@),
{
    if e - s != word.len() {
        proof {
            assert(text@.subrange(s as int, e as int).len() != word@.len());
        }
        return false;
    }
    let n = word.len();
    let mut i: usize = 0;
    while i < n
        invariant
            s <= e <= text@.len(),
            n == word@.len(),
            e - s == n,
            i <= n,
            forall|j: int| 0 <= j < i ==> text@[s + j] == word@[j],
        decreases n - i,
    {
        if text[s + i] != word[i] {
            proof {
                assert(text@.subrange(s as int, e as int)[i as int] == text@[s + i]);
            }
            return false;
        }
        i = i + 1;
    }
    proof {
        assert(text@.subrange(s as int, e as int) =~= word@);
    }
    true
}

fn copy_range(text: &Vec<char>, s: usize, e: usize) -> (r: Vec<char>)
    requires
        s <= e <= text@.len(),
    ensures
        r@ == text@.subrange(s as int, e as int),
{
    let mut out: Vec<char> = Vec::new();
    let mut i = s;
    while i < e
        invariant
            s <= i <= e <= text@.len(),
            out@.len() == i - s,
            forall|j: int| 0 <= j < out@.len() ==> out@[j] == text@[s + j],
        decreases e - i,
    {
        out.push(text[i]);
        i = i + 1;
    }
    proof {
        assert(out@ =~= text@.subrange(s as int, e as int));
    }
    out
}

fn keyword_start() -> (r: Vec<char>)
    ensures
        r@ == tok_start(),
{
    let mut v: Vec<char> = Vec::new();
    v.push('s');
    v.push('f');
    v.push('.');
    v.push('s');
    v.push('t');
    v.push('a');
    v.push('r');
    v.push('t');
    proof {
        assert(v@ =~= tok_start());
    }
    v
}

fn keyword_path() -> (r: Vec<char>)
    ensures
        r@ == tok_path(),
{
    let mut v: Vec<char> = Vec::new();
    v.push('s');
    v.push('f');
    v.push('.');
    v.push('p');
    v.push('a');
    v.push('t');
    v.push('h');
    proof {
        assert(v@ =~= tok_path());
    }
    v
}

fn keyword_enabled() -> (r: Vec<char>)
    ensures
        r@ == tok_enabled(),
{
    let mut v: Vec<char> = Vec::new();
    v.push('s');
    v.push('f');
    v.push('.');
    v.push('e');
    v.push('n');
    v.push('a');
    v.push('b');
    v.push('l');
    v.push('e');
    v.push('d');
    proof {
        assert(v@ =~= tok_enabled());
    }
    v
}

fn keyword_end() -> (r: Vec<char>)
    ensures
        r@ == tok_end(),
{
    let mut v: Vec<char> = Vec::new();
    v.push('s');
    v.push('f');
    v.push('.');
    v.push('e');
    v.push('n');
    v.push('d');
    proof {
        assert(v@ =~= tok_end());
    }
    v
}

/// Parse a soundfont list text into its regions, exactly as the directive
/// scan describes them.
pub fn parse_sf_list(text: &Vec<char>) -> (r: Vec<SFRegion>)
    ensures
        regions_view(r@) == parse_sf_spec(text@, 0, (Seq::<char>::empty(), false), Seq::empty()),
{
    let kw_start = keyword_start();
    let kw_path = keyword_path();
    let kw_enabled = keyword_enabled();
    let kw_end = keyword_end();

    let mut pos: usize = 0;
    let mut region_path: Vec<char> = Vec::new();
    let mut region_enabled: bool = false;
    let mut out: Vec<SFRegion> = Vec::new();
    let text_len = text.len();
    proof {
        assert(regions_view(out@) =~= Seq::<(Seq<char>, bool)>::empty());
        assert(region_path@ =~= Seq::<char>::empty());
    }

    loop
        invariant
            pos <= text@.len(),
            text@.len() == text_len,
            kw_start@ == tok_start(),
            kw_path@ == tok_path(),
            kw_enabled@ == tok_enabled(),
            kw_end@ == tok_end(),
            parse_sf_spec(text@, 0, (Seq::<char>::empty(), false), Seq::empty())
                == parse_sf_spec(
                text@,
                pos as int,
                (region_path@, region_enabled),
                regions_view(out@),
            ),
        ensures
            parse_sf_spec(text@, 0, (Seq::<char>::empty(), false), Seq::empty())
                == regions_view(out@),
        decreases text@.len() - pos,
    {
        let ghost pos0 = pos as int;
        let ghost rp0 = region_path@;
        let ghost en0 = region_enabled;
        let ghost ov0 = regions_view(out@);
        let s = match next_sf_token_exec(text, pos) {
            Some(s) => s,
            None => {
                break ;
            },
        };
        let e = lower_run_end_exec(text, s + 3);
        proof {
            lemma_lower_run_end_bounds(text@, s + 3);
        }
        if token_is(text, s, e, &kw_start) {
            region_path = Vec::new();
            region_enabled = false;
            pos = e;
            proof {
                assert(region_path@ =~= Seq::<char>::empty());
                assert(parse_sf_spec(text@, pos0, (rp0, en0), ov0) == parse_sf_spec(
                    text@,
                    pos as int,
                    (region_path@, region_enabled),
                    regions_view(out@),
                ));
            }
        } else if token_is(text, s, e, &kw_path) {
            let vs = if text.len() - e >= 3 {
                e + 3
            } else {
                text.len()
            };
            let le = line_end_exec(text, vs);
            region_path = copy_range(text, vs, le);
            pos = le;
            proof {
                assert(vs as int == value_start(text@, e as int));
                assert(parse_sf_spec(text@, pos0, (rp0, en0), ov0) == parse_sf_spec(
                    text@,
                    pos as int,
                    (region_path@, region_enabled),
                    regions_view(out@),
                ));
            }
        } else if token_is(text, s, e, &kw_enabled) {
            let vs = if text.len() - e >= 3 {
                e + 3
            } else {
                text.len()
            };
            let le = line_end_exec(text, vs);
            let one = le - vs == 1 && text[vs] == '1';
            proof {
                if one {
                    assert(text@.subrange(vs as int, le as int) =~= seq!['1']);
                } else {
                    if text@.subrange(vs as int, le as int) == seq!['1'] {
                        assert(text@.subrange(vs as int, le as int).len() == 1);
                        assert(text@.subrange(vs as int, le as int)[0] == text@[vs as int]);
                    }
                }
            }
            region_enabled = one;
            pos = le;
            proof {
                assert(vs as int == value_start(text@, e as int));
                assert(parse_sf_spec(text@, pos0, (rp0, en0), ov0) == parse_sf_spec(
                    text@,
                    pos as int,
                    (region_path@, region_enabled),
                    regions_view(out@),
                ));
            }
        } else if token_is(text, s, e, &kw_end) {
            let entry = SFRegion { path: copy_range(&region_path, 0, region_path.len()), enabled: region_enabled };
            proof {
                assert(region_path@.subrange(0, region_path@.len() as int) =~= region_path@);
            }
            out.push(entry);
            pos = e;
            proof {
                assert(regions_view(out@) =~= ov0.push((rp0, en0)));
                assert(parse_sf_spec(text@, pos0, (rp0, en0), ov0) == parse_sf_spec(
                    text@,
                    pos as int,
                    (region_path@, region_enabled),
                    regions_view(out@),
                ));
            }
        } else {
            pos = e;
            proof {
                assert(parse_sf_spec(text@, pos0, (rp0, en0), ov0) == parse_sf_spec(
                    text@,
                    pos as int,
                    (region_path@, region_enabled),
                    regions_view(out@),
                ));
            }
        }
    }
    proof {
        assert(parse_sf_spec(
            text@,
            pos as int,
            (region_path@, region_enabled),
            regions_view(out@),
        ) == regions_view(out@));
    }
    out
}

/// Whether a path ends in the `.sfz` extension.
pub open spec fn ends_with_sfz(p: Seq<char>) -> bool {
    p.len() >= 4 && p.subrange(p.len() - 4, p.len() as int) == seq!['.', 's', 'f', 'z']
}

/// The enabled `.sfz` paths of a region list, in order.
pub open spec fn enabled_sfz_paths_spec(v: Seq<(Seq<char>, bool)>) -> Seq<Seq<char>>
    decreases v.len(),
{
    if v.len() == 0 {
        Seq::empty()
    } else {
        let rest = enabled_sfz_paths_spec(v.drop_last());
        if v.last().1 && ends_with_sfz(v.last().0) {
            rest + seq![v.last().0]
        } else {
            rest
        }
    }
}

/// Keep the enabled regions whose paths name SFZ files.
pub fn enabled_sfz_paths(regions: &Vec<SFRegion>) -> (r: Vec<Vec<char>>)
    ensures
        r.deep_view() == enabled_sfz_paths_spec(regions_view(regions@)),
{
    let mut out: Vec<Vec<char>> = Vec::new();
    let mut i: usize = 0;
    while i < regions.len()
        invariant
            i <= regions@.len(),
            out.deep_view() == enabled_sfz_paths_spec(regions_view(regions@.subrange(0, i as int))),
        decreases regions@.len() - i,
    {
        proof {
            assert(regions_view(regions@.subrange(0, i + 1)).drop_last() =~= regions_view(
                regions@.subrange(0, i as int),
            ));
            assert(regions_view(regions@.subrange(0, i + 1)).last() == (
                regions@[i as int].path@,
                regions@[i as int].enabled,
            ));
        }
        let region = &regions[i];
        let n = region.path.len();
        let keep = region.enabled && n >= 4 && region.path[n - 4] == '.' && region.path[n - 3]
            == 's' && region.path[n - 2] == 'f' && region.path[n - 1] == 'z';
        proof {
            let p = regions@[i as int].path@;
            if keep {
                assert(p.subrange(p.len() - 4, p.len() as int) =~= seq!['.', 's', 'f', 'z']);
            } else {
                if regions@[i as int].enabled && ends_with_sfz(p) {
                    assert(p.subrange(p.len() - 4, p.len() as int)[0] == p[p.len() - 4]);
                    assert(p.subrange(p.len() - 4, p.len() as int)[1] == p[p.len() - 3]);
                    assert(p.subrange(p.len() - 4, p.len() as int)[2] == p[p.len() - 2]);
                    assert(p.subrange(p.len() - 4, p.len() as int)[3] == p[p.len() - 1]);
                }
            }
        }
        let ghost dv0 = out.deep_view();
        if keep {
            let copied = copy_range(&region.path, 0, n);
            proof {
                assert(region.path@.subrange(0, region.path@.len() as int) =~= region.path@);
            }
            out.push(copied);
            proof {
                assert(out.deep_view() =~~= dv0.push(regions@[i as int].path@));
            }
        }
        i = i + 1;
    }
    proof {
        assert(regions@.subrange(0, regions@.len() as int) =~= regions@);
    }
    out
}

} // verus!
