use vstd::prelude::*;

use crate::container::{Arch, Container, Error, ErrorKind, ProbeResult};
use crate::raw_binary::{raw_container_matches, spec_raw_residual, RawProber};
use crate::strutil::str_eq;

verus! {

/// A registered prober: a recognizer and constructor for one container
/// format. Formats register by adding a variant; dispatch never changes.
#[derive(Copy, Clone, Debug)]
pub enum Prober {
    Raw(RawProber),
}

/// The spec-level image of one candidate recognition.
#[verifier::ext_equal]
pub struct ProbeResultView {
    pub desc: Seq<char>,
    pub arch: Arch,
    pub likely: bool,
    pub cmd: Seq<Seq<char>>,
}

impl View for ProbeResult {
    type V = ProbeResultView;

    open spec fn view(&self) -> ProbeResultView {
        ProbeResultView {
            desc: self.desc@,
            arch: self.arch,
            likely: self.likely,
            cmd: self.cmd.deep_view(),
        }
    }
}

impl DeepView for ProbeResult {
    type V = ProbeResultView;

    open spec fn deep_view(&self) -> ProbeResultView {
        self.view()
    }
}

/// The registry name a prober dispatches under.
pub open spec fn spec_prober_name(p: Prober) -> Seq<char> {
    match p {
        Prober::Raw(_) => "raw"@,
    }
}

/// The one candidate the raw prober reports for every buffer.
pub open spec fn spec_raw_probe_result() -> ProbeResultView {
    ProbeResultView { desc: "raw"@, arch: Arch::UnknownArch, likely: false, cmd: seq!["raw"@] }
}

/// The candidates one prober reports for a buffer.
pub open spec fn spec_probe_one(p: Prober, bytes: Seq<u8>) -> Seq<ProbeResultView> {
    match p {
        Prober::Raw(_) => seq![spec_raw_probe_result()],
    }
}

/// The candidates of every registered prober, concatenated in registration
/// order; likelihood never reorders them.
pub open spec fn spec_probe_all(probers: Seq<Prober>, bytes: Seq<u8>) -> Seq<ProbeResultView>
    decreases probers.len(),
{
    if probers.len() == 0 {
        Seq::empty()
    } else {
        spec_probe_one(probers[0], bytes) + spec_probe_all(probers.drop_first(), bytes)
    }
}

/// The index of the first candidate flagged likely.
pub open spec fn spec_first_likely(results: Seq<ProbeResultView>) -> Option<int>
    decreases results.len(),
{
    if results.len() == 0 {
        None
    } else if results[0].likely {
        Some(0int)
    } else {
        match spec_first_likely(results.drop_first()) {
            Some(i) => Some(i + 1),
            None => None,
        }
    }
}

/// Auto-selection: the first candidate flagged likely, else the first
/// candidate overall, else nothing.
pub open spec fn spec_select_candidate(results: Seq<ProbeResultView>) -> Option<int> {
    match spec_first_likely(results) {
        Some(i) => Some(i),
        None => if results.len() > 0 {
            Some(0int)
        } else {
            None
        },
    }
}

/// The index of the first registered prober with the given name.
pub open spec fn spec_find_prober(probers: Seq<Prober>, name: Seq<char>) -> Option<int>
    decreases probers.len(),
{
    if probers.len() == 0 {
        None
    } else if spec_prober_name(probers[0]) == name {
        Some(0int)
    } else {
        match spec_find_prober(probers.drop_first(), name) {
            Some(i) => Some(i + 1),
            None => None,
        }
    }
}

/// An explicit architecture the caller put right after the `auto` marker,
/// and the arguments left after taking it.
pub open spec fn spec_auto_args_split(args: Seq<Seq<char>>) -> (Option<Seq<char>>, Seq<Seq<char>>) {
    if args.len() >= 2 && args[0] == "--arch"@ {
        (Some(args[1]), args.skip(2))
    } else {
        (None, args)
    }
}

/// The index of the first occurrence of `t` in `s`.
pub open spec fn spec_first_tok(s: Seq<Seq<char>>, t: Seq<char>) -> Option<int>
    decreases s.len(),
{
    if s.len() == 0 {
        None
    } else if s[0] == t {
        Some(0int)
    } else {
        match spec_first_tok(s.drop_first(), t) {
            Some(i) => Some(i + 1),
            None => None,
        }
    }
}

/// The candidate's canonical argument vector with the caller's explicit
/// architecture substituted for the candidate's own, or appended where the
/// vector names none.
pub open spec fn spec_subst_arch(cmd: Seq<Seq<char>>, arch: Option<Seq<char>>) -> Seq<Seq<char>> {
    match arch {
        None => cmd,
        Some(a) => match spec_first_tok(cmd, "--arch"@) {
            Some(i) => if i + 1 < cmd.len() {
                cmd.update(i + 1, a)
            } else {
                cmd.push(a)
            },
            None => cmd + seq!["--arch"@, a],
        },
    }
}

/// Where a `create` call dispatches: nowhere (malformed arguments, no
/// candidate, or an unknown format name), or to one registered prober with a
/// definite argument vector.
pub enum CreateDispatch {
    BadArgs,
    Dispatched(int, Seq<Seq<char>>),
}

/// The dispatch decision of `create`: an empty argument vector is malformed;
/// a leading `auto` token probes everything, auto-selects a candidate,
/// substitutes a caller-supplied architecture into its canonical vector and
/// dispatches to the prober that vector names, with the remaining caller
/// arguments appended; any other leading token names a registered prober
/// directly.
pub open spec fn spec_create_dispatch(
    probers: Seq<Prober>,
    bytes: Seq<u8>,
    args: Seq<Seq<char>>,
) -> CreateDispatch {
    if args.len() == 0 {
        CreateDispatch::BadArgs
    } else if args[0] == "auto"@ {
        let (arch_opt, rest) = spec_auto_args_split(args.drop_first());
        let results = spec_probe_all(probers, bytes);
        match spec_select_candidate(results) {
            None => CreateDispatch::BadArgs,
            Some(ci) => {
                let cmd = spec_subst_arch(results[ci].cmd, arch_opt);
                if cmd.len() == 0 {
                    CreateDispatch::BadArgs
                } else {
                    match spec_find_prober(probers, cmd[0]) {
                        None => CreateDispatch::BadArgs,
                        Some(pi) => CreateDispatch::Dispatched(pi, cmd + rest),
                    }
                }
            },
        }
    } else {
        match spec_find_prober(probers, args[0]) {
            None => CreateDispatch::BadArgs,
            Some(pi) => CreateDispatch::Dispatched(pi, args),
        }
    }
}

/// Every registered prober, in registration (display) order. The probers of
/// the concrete formats are external collaborators; the raw prober is the
/// built-in member of the registry.
pub fn all_probers() -> (r: Vec<Prober>)
    ensures
        r@.len() == 1,
        r@[0] is Raw,
{
    let mut v: Vec<Prober> = Vec::new();
    v.push(Prober::Raw(RawProber));
    v
}

impl Prober {
    /// The registry name this prober dispatches under.
    pub fn name(&self) -> (r: &'static str)
        ensures
            r@ == spec_prober_name(*self),
    {
        match self {
            Prober::Raw(p) => p.name(),
        }
    }

    /// This prober's candidates for the buffer; side-effect-free.
    pub fn probe(&self, probers: &Vec<Prober>, buf: &Vec<u8>) -> (r: Vec<ProbeResult>)
        ensures
            r.deep_view() == spec_probe_one(*self, buf@),
    {
        match self {
            Prober::Raw(p) => {
                let out = p.probe(probers, buf);
                proof {
                    assert(out.deep_view() =~= spec_probe_one(*self, buf@));
                }
                out
            },
        }
    }

    /// This prober's `create`: builds a container from the buffer and the
    /// argument vector, returning the arguments it did not consume.
    pub fn create(&self, probers: &Vec<Prober>, buf: Vec<u8>, args: Vec<String>) -> (r: Result<
        (Container, Vec<String>),
        Error,
    >)
        ensures
            match *self {
                Prober::Raw(_) => match spec_raw_residual(args.deep_view()) {
                    Some(free) => r matches Ok(p) && raw_container_matches(p.0, buf@) && p.0.wf()
                        && p.1.deep_view() == free,
                    None => r matches Err(e) && e.kind == ErrorKind::InvalidArgs,
                },
            },
    {
        match self {
            Prober::Raw(p) => p.create(probers, buf, args),
        }
    }
}

/// Invokes every registered prober and concatenates the candidates in
/// registration order; likelihood is advisory metadata only and never
/// reorders the result.
pub fn probe_all(probers: &Vec<Prober>, buf: &Vec<u8>) -> (r: Vec<ProbeResult>)
    ensures
        r.deep_view() == spec_probe_all(probers@, buf@),
{
    let n = probers.len();
    let mut out: Vec<ProbeResult> = Vec::new();
    let mut i: usize = 0;
    proof {
        assert(probers@.skip(0) =~= probers@);
        assert(out.deep_view() =~= Seq::<ProbeResultView>::empty());
        assert(out.deep_view() + spec_probe_all(probers@, buf@) =~= spec_probe_all(
            probers@,
            buf@,
        ));
    }
    while i < n
        invariant
            i <= n,
            n == probers@.len(),
            spec_probe_all(probers@, buf@) == out.deep_view() + spec_probe_all(
                probers@.skip(i as int),
                buf@,
            ),
        decreases n - i,
    {
        proof {
            assert(probers@.skip(i as int)[0] == probers@[i as int]);
            assert(probers@.skip(i as int).drop_first() =~= probers@.skip(i as int + 1));
        }
        let p = &probers[i];
        let mut found = p.probe(probers, buf);
        let ghost out_snap = out.deep_view();
        let ghost found_snap = found.deep_view();
        out.append(&mut found);
        proof {
            assert(out.deep_view() =~= out_snap + found_snap);
            assert((out_snap + found_snap) + spec_probe_all(probers@.skip(i as int + 1), buf@)
                =~= out_snap + (found_snap + spec_probe_all(probers@.skip(i as int + 1), buf@)));
        }
        i = i + 1;
    }
    proof {
        assert(spec_probe_all(probers@.skip(n as int), buf@) =~= Seq::<ProbeResultView>::empty());
        assert(out.deep_view() + Seq::<ProbeResultView>::empty() =~= out.deep_view());
    }
    out
}

/// The first likely candidate, derived from a scan that found none among the
/// first `i`.
proof fn lemma_first_likely_scan(results: Seq<ProbeResultView>, i: int)
    requires
        0 <= i <= results.len(),
        forall|j: int| 0 <= j < i ==> !results[j].likely,
    ensures
        i < results.len() && results[i].likely ==> spec_first_likely(results) == Some(i),
        i == results.len() ==> spec_first_likely(results) is None,
    decreases i,
{
    if i > 0 {
        assert(results.drop_first() =~= results.subrange(1, results.len() as int));
        lemma_first_likely_scan(results.drop_first(), i - 1);
        if i < results.len() {
            assert(results.drop_first()[i - 1] == results[i]);
        }
    }
}

/// The first prober of a name, derived from a scan that found none among the
/// first `i`.
proof fn lemma_find_prober_scan(probers: Seq<Prober>, name: Seq<char>, i: int)
    requires
        0 <= i <= probers.len(),
        forall|j: int| 0 <= j < i ==> spec_prober_name(probers[j]) != name,
    ensures
        i < probers.len() && spec_prober_name(probers[i]) == name ==> spec_find_prober(
            probers,
            name,
        ) == Some(i),
        i == probers.len() ==> spec_find_prober(probers, name) is None,
    decreases i,
{
    if i > 0 {
        assert(probers.drop_first() =~= probers.subrange(1, probers.len() as int));
        lemma_find_prober_scan(probers.drop_first(), name, i - 1);
        if i < probers.len() {
            assert(probers.drop_first()[i - 1] == probers[i]);
        }
    }
}

/// The auto-selected candidate index of `probe_all`'s results.
fn select_candidate(results: &Vec<ProbeResult>) -> (r: Option<usize>)
    ensures
        r is None <==> spec_select_candidate(results.deep_view()) is None,
        r matches Some(i) ==> spec_select_candidate(results.deep_view()) == Some(i as int) && i
            < results@.len(),
{
    let n = results.len();
    proof {
        assert(results.deep_view().len() == n);
    }
    let mut i: usize = 0;
    while i < n
        invariant
            i <= n,
            n == results@.len(),
            results.deep_view().len() == n,
            forall|j: int| 0 <= j < i ==> !results.deep_view()[j].likely,
        decreases n - i,
    {
        proof {
            assert(results.deep_view()[i as int] == results@[i as int]@);
        }
        if results[i].likely {
            proof {
                lemma_first_likely_scan(results.deep_view(), i as int);
            }
            return Some(i);
        }
        i = i + 1;
    }
    proof {
        lemma_first_likely_scan(results.deep_view(), n as int);
    }
    if n > 0 {
        Some(0)
    } else {
        None
    }
}

/// The registered prober of that name.
fn find_prober<'a>(probers: &'a Vec<Prober>, name: &str) -> (r: Option<(usize, &'a Prober)>)
    ensures
        r is None <==> spec_find_prober(probers@, name@) is None,
        r matches Some(p) ==> spec_find_prober(probers@, name@) == Some(p.0 as int) && p.0
            < probers@.len() && *p.1 == probers@[p.0 as int],
{
    let n = probers.len();
    let mut i: usize = 0;
    while i < n
        invariant
            i <= n,
            n == probers@.len(),
            forall|j: int| 0 <= j < i ==> spec_prober_name(probers@[j]) != name@,
        decreases n - i,
    {
        let p = &probers[i];
        if str_eq(p.name(), name) {
            proof {
                lemma_find_prober_scan(probers@, name@, i as int);
            }
            return Some((i, p));
        }
        i = i + 1;
    }
    proof {
        lemma_find_prober_scan(probers@, name@, n as int);
    }
    None
}

/// The first occurrence of a token, derived from a scan that found none
/// among the first `i`.
proof fn lemma_first_tok_scan(s: Seq<Seq<char>>, t: Seq<char>, i: int)
    requires
        0 <= i <= s.len(),
        forall|j: int| 0 <= j < i ==> s[j] != t,
    ensures
        i < s.len() && s[i] == t ==> spec_first_tok(s, t) == Some(i),
        i == s.len() ==> spec_first_tok(s, t) is None,
    decreases i,
{
    if i > 0 {
        assert(s.drop_first() =~= s.subrange(1, s.len() as int));
        lemma_first_tok_scan(s.drop_first(), t, i - 1);
        if i < s.len() {
            assert(s.drop_first()[i - 1] == s[i]);
        }
    }
}

/// The position of the first argument equal to `t`.
fn find_tok(v: &Vec<String>, t: &str) -> (r: Option<usize>)
    ensures
        r is None <==> spec_first_tok(v.deep_view(), t@) is None,
        r matches Some(i) ==> spec_first_tok(v.deep_view(), t@) == Some(i as int) && i < v@.len(),
{
    let n = v.len();
    proof {
        assert(v.deep_view().len() == n);
    }
    let mut i: usize = 0;
    while i < n
        invariant
            i <= n,
            n == v@.len(),
            v.deep_view().len() == n,
            forall|j: int| 0 <= j < i ==> v.deep_view()[j] != t@,
        decreases n - i,
    {
        proof {
            assert(v.deep_view()[i as int] == v@[i as int]@);
        }
        if str_eq(v[i].as_str(), t) {
            proof {
                lemma_first_tok_scan(v.deep_view(), t@, i as int);
            }
            return Some(i);
        }
        i = i + 1;
    }
    proof {
        lemma_first_tok_scan(v.deep_view(), t@, n as int);
    }
    None
}

/// Selects a prober for the buffer and delegates to its `create`: a leading
/// `auto` token auto-selects the first likely candidate (else the first
/// candidate overall, else fails), substituting a caller-supplied
/// architecture into its canonical argument vector; any other leading token
/// names a registered prober directly. No format is tried twice: exactly one
/// delegate `create` runs, or the whole operation fails.
pub fn create(probers: &Vec<Prober>, buf: &Vec<u8>, args: Vec<String>) -> (r: Result<
    (Container, Vec<String>),
    Error,
>)
    ensures
        match spec_create_dispatch(probers@, buf@, args.deep_view()) {
            CreateDispatch::BadArgs => r matches Err(e) && e.kind == ErrorKind::InvalidArgs,
            CreateDispatch::Dispatched(pi, final_args) => match probers@[pi] {
                Prober::Raw(_) => match spec_raw_residual(final_args) {
                    Some(free) => r matches Ok(p) && raw_container_matches(p.0, buf@) && p.0.wf()
                        && p.1.deep_view() == free,
                    None => r matches Err(e) && e.kind == ErrorKind::InvalidArgs,
                },
            },
        },
{
    let ghost dv: Seq<Seq<char>> = args.deep_view();
    let n = args.len();
    proof {
        assert(dv.len() == n);
    }
    if n == 0 {
        return Err(
            Error { kind: ErrorKind::InvalidArgs, message: "no container format named".to_owned() },
        );
    }
    proof {
        assert(dv[0] == args@[0]@);
    }
    if str_eq(args[0].as_str(), "auto") {
        let ghost tail: Seq<Seq<char>> = dv.drop_first();
        proof {
            assert(tail =~= dv.skip(1));
            assert(forall|j: int| 0 <= j < tail.len() ==> #[trigger] tail[j] == dv[j + 1]);
        }
        let mut arch_opt: Option<String> = None;
        let mut start: usize = 1;
        if args.len() >= 3 && str_eq(args[1].as_str(), "--arch") {
            arch_opt = Some(args[2].clone());
            start = 3;
        }
        let rest = crate::strutil::clone_strings_from(&args, start);
        proof {
            if start == 3 {
                assert(dv.skip(3) =~= tail.skip(2));
            } else {
                assert(dv.skip(1) =~= tail);
            }
            assert(spec_auto_args_split(tail) == (arch_opt.deep_view(), rest.deep_view()));
        }
        let results = probe_all(probers, buf);
        let ci = match select_candidate(&results) {
            Some(c) => c,
            None => {
                return Err(
                    Error {
                        kind: ErrorKind::InvalidArgs,
                        message: "no container formats returned by probing".to_owned(),
                    },
                );
            },
        };
        proof {
            assert(results.deep_view()[ci as int] == results@[ci as int]@);
        }
        let mut cmd = crate::strutil::clone_strings_from(&results[ci].cmd, 0);
        proof {
            assert(results[ci as int].cmd.deep_view().skip(0) =~= results@[ci as int]@.cmd);
        }
        let ghost cand_cmd: Seq<Seq<char>> = results@[ci as int]@.cmd;
        match arch_opt {
            Some(a) => {
                match find_tok(&cmd, "--arch") {
                    Some(t) => {
                        if t + 1 < cmd.len() {
                            cmd.set(t + 1, a);
                            proof {
                                assert(cmd.deep_view() =~= spec_subst_arch(
                                    cand_cmd,
                                    Some(a@),
                                ));
                            }
                        } else {
                            let ghost pre: Seq<Seq<char>> = cmd.deep_view();
                            cmd.push(a);
                            proof {
                                assert(cmd.deep_view().len() == pre.len() + 1);
                                assert(forall|q: int|
                                    0 <= q < pre.len() ==> #[trigger] cmd.deep_view()[q] == pre[q]);
                                assert(cmd.deep_view() =~= spec_subst_arch(cand_cmd, Some(a@)));
                            }
                        }
                    },
                    None => {
                        let ghost pre: Seq<Seq<char>> = cmd.deep_view();
                        cmd.push("--arch".to_owned());
                        cmd.push(a);
                        proof {
                            assert(cmd.deep_view().len() == pre.len() + 2);
                            assert(forall|q: int|
                                0 <= q < pre.len() ==> #[trigger] cmd.deep_view()[q] == pre[q]);
                            assert(cmd.deep_view()[pre.len() as int] == "--arch"@);
                            assert(cmd.deep_view() =~= spec_subst_arch(cand_cmd, Some(a@)));
                        }
                    },
                }
            },
            None => {
                proof {
                    assert(cmd.deep_view() =~= spec_subst_arch(cand_cmd, None));
                }
            },
        }
        if cmd.len() == 0 {
            return Err(
                Error {
                    kind: ErrorKind::InvalidArgs,
                    message: "probing returned an empty reconstruction command".to_owned(),
                },
            );
        }
        proof {
            assert(cmd.deep_view()[0] == cmd@[0]@);
        }
        match find_prober(probers, cmd[0].as_str()) {
            None => {
                Err(
                    Error {
                        kind: ErrorKind::InvalidArgs,
                        message: "unknown container format".to_owned(),
                    },
                )
            },
            Some((_pi, p)) => {
                let ghost cmd_pre: Seq<Seq<char>> = cmd.deep_view();
                let mut rest_mut = rest;
                let ghost rest_dv: Seq<Seq<char>> = rest_mut.deep_view();
                cmd.append(&mut rest_mut);
                proof {
                    assert(cmd.deep_view() =~= cmd_pre + rest_dv);
                }
                p.create(probers, crate::strutil::clone_bytes(buf), cmd)
            },
        }
    } else {
        match find_prober(probers, args[0].as_str()) {
            None => {
                Err(
                    Error {
                        kind: ErrorKind::InvalidArgs,
                        message: "unknown container format".to_owned(),
                    },
                )
            },
            Some((_pi, p)) => p.create(probers, crate::strutil::clone_bytes(buf), args),
        }
    }
}

/// Every buffer yields at least the raw candidate when the raw prober is
/// registered, and that candidate is never flagged likely, so a real format
/// always wins auto-selection over it.
pub proof fn lemma_probe_all_has_raw(probers: Seq<Prober>, bytes: Seq<u8>, i: int)
    requires
        0 <= i < probers.len(),
        probers[i] is Raw,
    ensures
        exists|j: int|
            0 <= j < spec_probe_all(probers, bytes).len() && spec_probe_all(probers, bytes)[j]
                == spec_raw_probe_result() && !(#[trigger] spec_probe_all(probers, bytes)[j]).likely,
    decreases probers.len(),
{
    if i == 0 {
        assert(spec_probe_all(probers, bytes)[0] == spec_raw_probe_result());
    } else {
        assert(probers.drop_first()[i - 1] is Raw);
        lemma_probe_all_has_raw(probers.drop_first(), bytes, i - 1);
        let sub = spec_probe_all(probers.drop_first(), bytes);
        let j = choose|j: int|
            0 <= j < sub.len() && sub[j] == spec_raw_probe_result() && !(#[trigger] sub[j]).likely;
        let head = spec_probe_one(probers[0], bytes);
        assert(spec_probe_all(probers, bytes)[head.len() + j] == sub[j]);
    }
}

/// Probing has no hidden state: its candidates are a function of the
/// registry and the buffer alone, so probing the same buffer twice yields
/// identical candidate sequences.
pub proof fn lemma_probe_all_idempotent(
    probers1: Seq<Prober>,
    bytes1: Seq<u8>,
    probers2: Seq<Prober>,
    bytes2: Seq<u8>,
)
    requires
        probers1 == probers2,
        bytes1 == bytes2,
    ensures
        spec_probe_all(probers1, bytes1) == spec_probe_all(probers2, bytes2),
{
}

} // verus!
