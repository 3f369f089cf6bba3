use vstd::prelude::*;

use crate::container::{Arch, Container, Endian, Error, ErrorKind, ProbeResult, Prot, Segment};
use crate::probe::Prober;
use crate::strutil::str_eq;
use crate::vma::VMA;

verus! {

/// Whether `s` is the synthetic segment of a raw image: the whole buffer
/// mapped read-write-execute at virtual address 0.
pub open spec fn raw_segment_matches(s: Segment, bytes: Seq<u8>) -> bool {
    &&& s.vmaddr == VMA(0)
    &&& s.vmsize == bytes.len()
    &&& s.fileoff == 0
    &&& s.filesize == bytes.len()
    &&& s.name is None
    &&& s.prot == (Prot { r: true, w: true, x: true })
    &&& s.data is Some
    &&& s.data->Some_0@ == bytes
    &&& s.seg_idx is None
}

/// Whether `c` is the container a raw image probes to: architecture-less,
/// big-endian with no pointer size, one synthetic segment (mirrored as the
/// only section), and the buffer retained whole.
pub open spec fn raw_container_matches(c: Container, bytes: Seq<u8>) -> bool {
    &&& c.arch == Arch::UnknownArch
    &&& c.pointer_size == 0
    &&& c.endian == Endian::Big
    &&& c.segments@.len() == 1
    &&& raw_segment_matches(c.segments@[0], bytes)
    &&& c.sections@.len() == 1
    &&& raw_segment_matches(c.sections@[0], bytes)
    &&& c.whole_buf is Some
    &&& c.whole_buf->Some_0@ == bytes
}

/// Any buffer read as architecture-less raw data.
pub struct RawBinary {
    pub eb: Container,
}

impl RawBinary {
    /// Builds the synthetic container over the whole buffer. Arguments are
    /// accepted for interface parity and carry no options.
    pub fn new(buf: Vec<u8>, _args: Vec<String>) -> (r: RawBinary)
        ensures
            raw_container_matches(r.eb, buf@),
            r.eb.wf(),
    {
        let len: usize = buf.len();
        let seg = Segment {
            vmaddr: VMA(0),
            vmsize: len as u64,
            fileoff: 0u64,
            filesize: len as u64,
            name: None,
            prot: crate::container::prot_all(),
            data: Some(crate::strutil::clone_bytes(&buf)),
            seg_idx: None,
        };
        let sect = Segment {
            vmaddr: VMA(0),
            vmsize: len as u64,
            fileoff: 0u64,
            filesize: len as u64,
            name: None,
            prot: crate::container::prot_all(),
            data: Some(crate::strutil::clone_bytes(&buf)),
            seg_idx: None,
        };
        let mut segments: Vec<Segment> = Vec::new();
        segments.push(seg);
        let mut sections: Vec<Segment> = Vec::new();
        sections.push(sect);
        RawBinary {
            eb: Container {
                arch: Arch::UnknownArch,
                pointer_size: 0,
                endian: Endian::Big,
                segments,
                sections,
                whole_buf: Some(buf),
            },
        }
    }

    /// The uniform view of the probed image.
    pub fn get_exec_base(&self) -> (r: &Container)
        ensures
            r == &self.eb,
    {
        &self.eb
    }
}

/// Option scanning of the raw prober, which defines no options: everything
/// after the leading name token must be free (a leading `-` token is
/// malformed), and everything after a `--` token is free.
pub open spec fn spec_free_args(args: Seq<Seq<char>>) -> Option<Seq<Seq<char>>>
    decreases args.len(),
{
    if args.len() == 0 {
        Some(Seq::empty())
    } else if args[0] == "--"@ {
        Some(args.drop_first())
    } else if args[0].len() >= 2 && args[0][0] == '-' {
        None
    } else {
        match spec_free_args(args.drop_first()) {
            Some(rest) => Some(seq![args[0]] + rest),
            None => None,
        }
    }
}

/// The residual arguments of the raw prober's `create`: its free arguments
/// after the leading name token.
pub open spec fn spec_raw_residual(args: Seq<Seq<char>>) -> Option<Seq<Seq<char>>> {
    if args.len() == 0 {
        spec_free_args(args)
    } else {
        spec_free_args(args.drop_first())
    }
}

/// Collects the free arguments after the leading name token, per
/// `spec_raw_residual`.
fn collect_free_args(args: &Vec<String>) -> (r: Option<Vec<String>>)
    ensures
        match r {
            Some(free) => spec_raw_residual(args.deep_view()) == Some(free.deep_view()),
            None => spec_raw_residual(args.deep_view()) is None,
        },
{
    let ghost dv: Seq<Seq<char>> = args.deep_view();
    let n = args.len();
    let mut out: Vec<String> = Vec::new();
    let mut i: usize = if n == 0 {
        0
    } else {
        1
    };
    proof {
        assert(dv.len() == n);
        if n > 0 {
            assert(dv.skip(1) =~= dv.drop_first());
        } else {
            assert(dv.skip(0) =~= dv);
        }
        if spec_free_args(dv.skip(i as int)) is Some {
            assert(out.deep_view() + spec_free_args(dv.skip(i as int))->Some_0 =~= spec_free_args(
                dv.skip(i as int),
            )->Some_0);
        }
    }
    while i < n
        invariant
            i <= n,
            n == args@.len(),
            dv == args.deep_view(),
            dv.len() == n,
            spec_raw_residual(dv) == (match spec_free_args(dv.skip(i as int)) {
                Some(rest) => Some(out.deep_view() + rest),
                None => None,
            }),
        decreases n - i,
    {
        proof {
            assert(dv.skip(i as int)[0] == dv[i as int]);
            assert(dv.skip(i as int).drop_first() =~= dv.skip(i as int + 1));
            assert(dv[i as int] == args@[i as int]@);
        }
        let a: &String = &args[i];
        if str_eq(a.as_str(), "--") {
            let ghost out_snap: Seq<Seq<char>> = out.deep_view();
            let mut k: usize = i + 1;
            proof {
                assert(out.deep_view() =~= out_snap + dv.subrange(i as int + 1, k as int));
            }
            while k < n
                invariant
                    i + 1 <= k <= n,
                    n == args@.len(),
                    dv == args.deep_view(),
                    dv.len() == n,
                    out.deep_view() == out_snap + dv.subrange(i as int + 1, k as int),
                decreases n - k,
            {
                proof {
                    assert(dv[k as int] == args@[k as int]@);
                }
                let ghost pre: Seq<Seq<char>> = out.deep_view();
                out.push(args[k].clone());
                proof {
                    assert(out.deep_view().len() == pre.len() + 1);
                    assert(forall|t: int|
                        0 <= t < pre.len() ==> #[trigger] out.deep_view()[t] == pre[t]);
                    assert(out.deep_view()[pre.len() as int] == dv[k as int]);
                    assert(out.deep_view() =~= out_snap + dv.subrange(i as int + 1, k as int + 1));
                }
                k = k + 1;
            }
            proof {
                assert(dv.subrange(i as int + 1, n as int) =~= dv.skip(i as int).drop_first());
                assert(out.deep_view() =~= out_snap + dv.skip(i as int).drop_first());
            }
            return Some(out);
        }
        let alen = a.as_str().unicode_len();
        if alen >= 2 && a.as_str().get_char(0) == '-' {
            return None;
        }
        out.push(a.clone());
        proof {
            if spec_free_args(dv.skip(i as int + 1)) is Some {
                let rest = spec_free_args(dv.skip(i as int + 1))->Some_0;
                assert(out.deep_view() + rest =~= (out.deep_view().drop_last()) + (seq![
                    dv[i as int],
                ] + rest));
            }
        }
        i = i + 1;
    }
    proof {
        assert(dv.skip(n as int) =~= Seq::<Seq<char>>::empty());
        assert(out.deep_view() + Seq::<Seq<char>>::empty() =~= out.deep_view());
    }
    Some(out)
}

/// The raw prober: recognizes any buffer as raw data, never as likely.
#[derive(Copy, Clone, Debug)]
pub struct RawProber;

impl RawProber {
    /// The registry name this prober dispatches under.
    pub fn name(&self) -> (r: &'static str)
        ensures
            r@ == "raw"@,
    {
        "raw"
    }

    /// Recognizes every buffer, with likelihood false so a real format always
    /// wins auto-selection.
    pub fn probe(&self, _probers: &Vec<Prober>, _buf: &Vec<u8>) -> (r: Vec<ProbeResult>)
        ensures
            r.deep_view() == seq![crate::probe::spec_raw_probe_result()],
    {
        let mut cmd: Vec<String> = Vec::new();
        cmd.push("raw".to_owned());
        let mut out: Vec<ProbeResult> = Vec::new();
        out.push(ProbeResult { desc: "raw".to_owned(), arch: Arch::UnknownArch, likely: false, cmd });
        proof {
            assert(out@[0].cmd.deep_view() =~= seq!["raw"@]);
            assert(out@[0].deep_view() =~~= crate::probe::spec_raw_probe_result());
            assert(out.deep_view() =~~= seq![crate::probe::spec_raw_probe_result()]);
        }
        out
    }

    /// Parses the (empty) option set of the raw format from `args`, builds
    /// the synthetic container over the buffer, and hands back the free
    /// arguments it did not consume.
    pub fn create(&self, _probers: &Vec<Prober>, buf: Vec<u8>, args: Vec<String>) -> (r: Result<
        (Container, Vec<String>),
        Error,
    >)
        ensures
            match spec_raw_residual(args.deep_view()) {
                Some(free) => r matches Ok(p) && raw_container_matches(p.0, buf@) && p.0.wf()
                    && p.1.deep_view() == free,
                None => r matches Err(e) && e.kind == ErrorKind::InvalidArgs,
            },
    {
        let free = match collect_free_args(&args) {
            Some(f) => f,
            None => {
                return Err(
                    Error {
                        kind: ErrorKind::InvalidArgs,
                        message: "raw: unrecognized option".to_owned(),
                    },
                );
            },
        };
        let rb = RawBinary::new(buf, args);
        Ok((rb.eb, free))
    }
}

} // verus!
