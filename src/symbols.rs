use vstd::prelude::*;

verus! {

/// Relies on `backtrace::trace`: the instruction pointer of each frame of the
/// calling thread's stack, innermost first as the walk visits them. What it yields
/// depends on the running program, so nothing is stated of it.
#[verifier::external_body]
pub(crate) fn stack_frames() -> (r: Vec<usize>) {
    let mut ips: Vec<usize> = Vec::new();
    backtrace::trace(|frame| {
        ips.push(frame.ip() as usize);
        true
    });
    ips
}

/// Relies on `backtrace::resolve`: for each symbol that `addr` resolves to,
/// its demangled name where the debug information gives one; nothing where
/// the address resolves to no symbol. This depends on the binary and its debug
/// information, so nothing is stated of it.
#[verifier::external_body]
pub(crate) fn resolve_names(addr: usize) -> (r: Vec<Option<String>>) {
    let mut names: Vec<Option<String>> = Vec::new();
    backtrace::resolve(addr as _, |s| names.push(s.name().map(|n| n.to_string())));
    names
}

/// `pat` occurs in `s` as a contiguous run.
pub open spec fn has_substr(s: Seq<char>, pat: Seq<char>) -> bool {
    exists|i: int| 0 <= i && i + pat.len() <= s.len() && #[trigger] s.subrange(i, i + pat.len()) == pat
}

/// Relies on `str::contains` with a `&str` pattern: whether `pat` occurs in `s`.
#[verifier::external_body]
fn str_contains(s: &str, pat: &str) -> (r: bool)
    ensures
        r == has_substr(s@, pat@),
{
    s.contains(pat)
}

/// A name of a frame that belongs to the stack walker, to the allocator
/// interface or to this library itself.
pub open spec fn is_internal_frame(name: Seq<char>) -> bool {
    has_substr(name, "backtrace"@) || has_substr(name, "GlobalAlloc"@) || has_substr(
        name,
        "insight"@,
    )
}

/// Whether a resolved name is shown in a dump.
pub fn keep_symbol_name(name: &str) -> (r: bool)
    ensures
        r == !is_internal_frame(name@),
{
    !str_contains(name, "backtrace") && !str_contains(name, "GlobalAlloc") && !str_contains(
        name,
        "insight",
    )
}

/// The names, in order, that are present and not internal.
pub open spec fn kept_names(syms: Seq<Option<String>>) -> Seq<Seq<char>>
    decreases syms.len(),
{
    if syms.len() == 0 {
        Seq::empty()
    } else {
        let prev = kept_names(syms.drop_last());
        let last = syms.last();
        if last is Some && !is_internal_frame(last->0@) {
            prev.push(last->0@)
        } else {
            prev
        }
    }
}

/// The shown names among the names that an address resolved to, in order.
pub fn trace_names(syms: &Vec<Option<String>>) -> (r: Vec<String>)
    ensures
        r@.map_values(|s: String| s@) == kept_names(syms@),
{
    let mut out: Vec<String> = Vec::new();
    let mut i: usize = 0;
    while i < syms.len()
        invariant
            i <= syms.len(),
            out@.map_values(|s: String| s@) == kept_names(syms@.take(i as int)),
        decreases syms.len() - i,
    {
        assert(syms@.take(i as int + 1).drop_last() =~= syms@.take(i as int));
        match &syms[i] {
            Some(n) => {
                if keep_symbol_name(n.as_str()) {
                    out.push(n.clone());
                }
            },
            None => {},
        }
        assert(out@.map_values(|s: String| s@) =~= kept_names(syms@.take(i as int + 1)));
        i += 1;
    }
    assert(syms@.take(syms.len() as int) =~= syms@);
    out
}

/// The walked instruction pointers `ips` (innermost first) turned around,
/// oldest frame first, with a null one as `None`.
pub open spec fn oldest_first(ips: Seq<usize>) -> Seq<Option<usize>> {
    Seq::new(
        ips.len(),
        |k: int|
            if ips[ips.len() - 1 - k] == 0 {
                None
            } else {
                Some(ips[ips.len() - 1 - k])
            },
    )
}

/// Orders walked instruction pointers oldest frame first, a null one as `None`.
pub fn frames_oldest_first(ips: &Vec<usize>) -> (r: Vec<Option<usize>>)
    ensures
        r@ == oldest_first(ips@),
{
    let mut out: Vec<Option<usize>> = Vec::new();
    let mut i: usize = ips.len();
    while i > 0
        invariant
            i <= ips.len(),
            out@.len() == ips.len() - i,
            forall|k: int| 0 <= k < out@.len() ==> #[trigger] out@[k] == oldest_first(ips@)[k],
        decreases i,
    {
        i -= 1;
        let ip = ips[i];
        if ip == 0 {
            out.push(None);
        } else {
            out.push(Some(ip));
        }
    }
    assert(out@ =~= oldest_first(ips@));
    out
}

/// The raw instruction pointers of the calling thread's stack frames,
/// oldest frame first, a null one as `None`. Nothing is resolved here.
pub fn capture_trace() -> (r: Vec<Option<usize>>)
    ensures
        exists|ips: Seq<usize>| r@ == oldest_first(ips),
{
    let ips = stack_frames();
    frames_oldest_first(&ips)
}

/// The number of present addresses in `bt`.
pub open spec fn present_count(bt: Seq<Option<usize>>) -> nat
    decreases bt.len(),
{
    if bt.len() == 0 {
        0
    } else {
        present_count(bt.drop_last()) + if bt.last() is Some {
            1nat
        } else {
            0nat
        }
    }
}

/// The shown names of each resolution in `res`, joined in order.
pub open spec fn concat_kept(res: Seq<Seq<Option<String>>>) -> Seq<Seq<char>>
    decreases res.len(),
{
    if res.len() == 0 {
        Seq::empty()
    } else {
        concat_kept(res.drop_last()) + kept_names(res.last())
    }
}

/// `names` are the shown names of some resolution of each present address of
/// `bt`, in order.
pub open spec fn is_symbolization(names: Seq<String>, bt: Seq<Option<usize>>) -> bool {
    exists|res: Seq<Seq<Option<String>>>|
        res.len() == present_count(bt) && names.map_values(|s: String| s@) == concat_kept(res)
}

/// Joins the shown names of each resolution in `res`, in order.
pub fn join_names(res: &Vec<Vec<Option<String>>>) -> (r: Vec<String>)
    ensures
        r@.map_values(|s: String| s@) == concat_kept(res@.map_values(|v: Vec<Option<String>>| v@)),
{
    let ghost f = |v: Vec<Option<String>>| v@;
    let mut out: Vec<String> = Vec::new();
    let mut i: usize = 0;
    while i < res.len()
        invariant
            i <= res.len(),
            f == (|v: Vec<Option<String>>| v@),
            out@.map_values(|s: String| s@) == concat_kept(res@.map_values(f).take(i as int)),
        decreases res.len() - i,
    {
        let names = trace_names(&res[i]);
        let ghost base = out@.map_values(|s: String| s@);
        let mut j: usize = 0;
        while j < names.len()
            invariant
                j <= names.len(),
                out@.map_values(|s: String| s@) == base + names@.map_values(|s: String| s@).take(
                    j as int,
                ),
            decreases names.len() - j,
        {
            let ghost prev = out@;
            out.push(names[j].clone());
            proof {
                let m = names@.map_values(|s: String| s@);
                assert(prev.map_values(|s: String| s@) =~= base + m.take(j as int));
                assert(out@ =~= prev.push(names@[j as int]));
                assert(m[j as int] == names@[j as int]@);
                let om = out@.map_values(|s: String| s@);
                assert(prev.map_values(|s: String| s@).len() == prev.len());
                assert(prev.len() == base.len() + j);
                assert(om.len() == out@.len());
                assert forall|k: int| 0 <= k < out@.len() implies #[trigger] om[k] == (base
                    + m.take(j as int + 1))[k] by {
                    if k < prev.len() {
                        assert(out@[k] == prev[k]);
                        assert(prev.map_values(|s: String| s@)[k] == (base + m.take(j as int))[k]);
                    } else {
                        assert(om[k] == out@[k]@);
                        assert((base + m.take(j as int + 1))[k] == m[j as int]);
                    }
                }
                assert(out@.map_values(|s: String| s@) =~= base + m.take(j as int + 1));
            }
            j += 1;
        }
        assert(names@.map_values(|s: String| s@).take(names.len() as int) =~= names@.map_values(
            |s: String| s@,
        ));
        assert(res@.map_values(f).take(i as int + 1).drop_last() =~= res@.map_values(f).take(
            i as int,
        ));
        assert(res@.map_values(f).take(i as int + 1).last() == res@[i as int]@);
        i += 1;
    }
    assert(res@.map_values(f).take(res.len() as int) =~= res@.map_values(f));
    out
}

/// The shown names of the symbols that the present addresses of `bt` resolve
/// to, in order. None of them is internal, whatever the resolution gave.
pub fn symbolize(bt: &Vec<Option<usize>>) -> (r: Vec<String>)
    ensures
        is_symbolization(r@, bt@),
        present_count(bt@) == 0 ==> r@.len() == 0,
        forall|k: int| 0 <= k < r@.len() ==> !is_internal_frame(#[trigger] r@[k]@),
{
    let mut res: Vec<Vec<Option<String>>> = Vec::new();
    let mut i: usize = 0;
    while i < bt.len()
        invariant
            i <= bt.len(),
            res@.len() == present_count(bt@.take(i as int)),
        decreases bt.len() - i,
    {
        assert(bt@.take(i as int + 1).drop_last() =~= bt@.take(i as int));
        if let Some(addr) = bt[i] {
            res.push(resolve_names(addr));
        }
        i += 1;
    }
    assert(bt@.take(bt.len() as int) =~= bt@);
    let r = join_names(&res);
    let ghost rs = res@.map_values(|v: Vec<Option<String>>| v@);
    proof {
        lemma_concat_kept_shown(rs);
        if present_count(bt@) == 0 {
            assert(rs =~= Seq::<Seq<Option<String>>>::empty());
            assert(r@.map_values(|s: String| s@).len() == 0);
        }
        assert forall|k: int| 0 <= k < r@.len() implies !is_internal_frame(#[trigger] r@[k]@) by {
            assert(r@.map_values(|s: String| s@)[k] == r@[k]@);
        }
    }
    r
}

/// No name that `concat_kept` keeps is internal.
proof fn lemma_concat_kept_shown(res: Seq<Seq<Option<String>>>)
    ensures
        forall|k: int| 0 <= k < concat_kept(res).len() ==> !is_internal_frame(
            #[trigger] concat_kept(res)[k],
        ),
    decreases res.len(),
{
    if res.len() > 0 {
        let prev = concat_kept(res.drop_last());
        let last = kept_names(res.last());
        lemma_concat_kept_shown(res.drop_last());
        lemma_kept_names_shown(res.last());
        assert forall|k: int| 0 <= k < concat_kept(res).len() implies !is_internal_frame(
            #[trigger] concat_kept(res)[k],
        ) by {
            if k < prev.len() {
                assert(concat_kept(res)[k] == prev[k]);
            } else {
                assert(concat_kept(res)[k] == last[k - prev.len()]);
            }
        }
    }
}

/// No name that `kept_names` keeps is internal.
proof fn lemma_kept_names_shown(syms: Seq<Option<String>>)
    ensures
        forall|k: int| 0 <= k < kept_names(syms).len() ==> !is_internal_frame(
            #[trigger] kept_names(syms)[k],
        ),
    decreases syms.len(),
{
    if syms.len() > 0 {
        let prev = kept_names(syms.drop_last());
        lemma_kept_names_shown(syms.drop_last());
        assert forall|k: int| 0 <= k < kept_names(syms).len() implies !is_internal_frame(
            #[trigger] kept_names(syms)[k],
        ) by {
            if k < prev.len() {
                assert(kept_names(syms)[k] == prev[k]);
            }
        }
    }
}

} // verus!
