//! Cgroup v2 management logic: the fixed path layout under
//! `/sys/fs/cgroup/craterun/`, the controller-enabling payload, and the
//! limit files to write for a configuration.

use vstd::prelude::*;

use crate::dec::dec_nat;
use crate::dec::u64_string;
use crate::text::push_char;
use crate::text::push_str;

verus! {

/// The root of this runtime's cgroups on the unified hierarchy.
pub fn cgroup_root_path() -> (r: String)
    ensures
        r@ == "/sys/fs/cgroup/craterun"@,
{
    "/sys/fs/cgroup/craterun".to_owned()
}

/// The cgroup path for a specific container:
/// `/sys/fs/cgroup/craterun/<container_id>`.
pub fn cgroup_path(container_id: &str) -> (r: String)
    ensures
        r@ == "/sys/fs/cgroup/craterun/"@ + container_id@,
{
    let mut p = "/sys/fs/cgroup/craterun/".to_owned();
    push_str(&mut p, container_id);
    p
}

/// ASCII whitespace, as the kernel uses between controller names.
pub open spec fn is_ws(c: char) -> bool {
    c == ' ' || c == '\t' || c == '\n' || c == '\r'
}

/// The whitespace-separated tokens of `s`, with `cur` the token read so
/// far.
pub open spec fn ws_toks(s: Seq<char>, cur: Seq<char>) -> Seq<Seq<char>>
    decreases s.len(),
{
    if s.len() == 0 {
        if cur.len() == 0 {
            Seq::<Seq<char>>::empty()
        } else {
            seq![cur]
        }
    } else if is_ws(s[0]) {
        if cur.len() == 0 {
            ws_toks(s.drop_first(), Seq::<char>::empty())
        } else {
            seq![cur] + ws_toks(s.drop_first(), Seq::<char>::empty())
        }
    } else {
        ws_toks(s.drop_first(), cur.push(s[0]))
    }
}

/// The whitespace-separated tokens of `s`.
pub open spec fn ws_tokens(s: Seq<char>) -> Seq<Seq<char>> {
    ws_toks(s, Seq::<char>::empty())
}

/// Tokens joined as `+tok1 +tok2 ...`, the payload that enables every
/// named controller when written to `cgroup.subtree_control`.
pub open spec fn plus_join(toks: Seq<Seq<char>>) -> Seq<char>
    decreases toks.len(),
{
    if toks.len() == 0 {
        Seq::<char>::empty()
    } else if toks.len() == 1 {
        seq!['+'] + toks[0]
    } else {
        seq!['+'] + toks[0] + seq![' '] + plus_join(toks.drop_first())
    }
}

/// Build the `cgroup.subtree_control` payload from the contents of a
/// `cgroup.controllers` file: each whitespace-separated controller name
/// prefixed with `+`, the entries separated by single spaces.
pub fn enable_payload(controllers: &str) -> (r: String)
    ensures
        r@ == plus_join(ws_tokens(controllers@)),
{
    let n = controllers.unicode_len();
    let mut parts: Vec<String> = Vec::new();
    let mut cur = String::new();
    let mut i: usize = 0;
    proof {
        assert(controllers@.skip(0) =~= controllers@);
        assert(parts.deep_view() + ws_toks(controllers@.skip(0), cur@) =~= ws_tokens(
            controllers@,
        ));
    }
    while i < n
        invariant
            n == controllers@.len(),
            0 <= i <= n,
            parts.deep_view() + ws_toks(controllers@.skip(i as int), cur@) == ws_tokens(
                controllers@,
            ),
        decreases n - i,
    {
        let c = controllers.get_char(i);
        let ghost curv = cur@;
        proof {
            assert(controllers@.skip(i as int)[0] == controllers@[i as int]);
            assert(controllers@.skip(i as int).drop_first() =~= controllers@.skip(i + 1));
        }
        if c == ' ' || c == '\t' || c == '\n' || c == '\r' {
            if cur.unicode_len() > 0 {
                let ghost prev = parts.deep_view();
                parts.push(cur);
                cur = String::new();
                proof {
                    assert(ws_toks(controllers@.skip(i as int), curv) == seq![curv] + ws_toks(
                        controllers@.skip(i + 1),
                        Seq::<char>::empty(),
                    ));
                    assert(parts.deep_view() =~= prev.push(curv));
                    assert(prev.push(curv) + ws_toks(controllers@.skip(i + 1), cur@) =~= prev + (
                    seq![curv] + ws_toks(controllers@.skip(i + 1), cur@)));
                }
            } else {
                proof {
                    assert(curv =~= Seq::<char>::empty());
                    assert(ws_toks(controllers@.skip(i as int), curv) == ws_toks(
                        controllers@.skip(i + 1),
                        curv,
                    ));
                }
            }
        } else {
            push_char(&mut cur, c);
            proof {
                assert(!is_ws(controllers@[i as int]));
                assert(ws_toks(controllers@.skip(i as int), curv) == ws_toks(
                    controllers@.skip(i + 1),
                    curv.push(c),
                ));
            }
        }
        i += 1;
    }
    proof {
        assert(controllers@.skip(n as int).len() == 0);
    }
    if cur.unicode_len() > 0 {
        let ghost prev = parts.deep_view();
        let ghost curv = cur@;
        parts.push(cur);
        proof {
            assert(parts.deep_view() =~= prev.push(curv));
            assert(prev.push(curv) =~= prev + seq![curv]);
        }
    } else {
        proof {
            assert(parts.deep_view() + Seq::<Seq<char>>::empty() =~= parts.deep_view());
        }
    }
    let ghost toks = ws_tokens(controllers@);
    let mut out = String::new();
    let mut k: usize = 0;
    proof {
        assert(parts.deep_view().skip(0) =~= parts.deep_view());
        assert(out@ + plus_join(toks) =~= plus_join(toks));
    }
    while k < parts.len()
        invariant
            0 <= k <= parts@.len(),
            parts.deep_view() == toks,
            out@ + plus_join(parts.deep_view().skip(k as int)) == plus_join(toks),
        decreases parts@.len() - k,
    {
        proof {
            assert(parts.deep_view().skip(k as int)[0] == parts.deep_view()[k as int]);
            assert(parts.deep_view().skip(k as int).drop_first() =~= parts.deep_view().skip(
                k + 1,
            ));
        }
        push_char(&mut out, '+');
        push_str(&mut out, parts[k].as_str());
        if k < parts.len() - 1 {
            push_char(&mut out, ' ');
        }
        k += 1;
    }
    proof {
        assert(plus_join(parts.deep_view().skip(parts@.len() as int)) =~= Seq::<char>::empty());
        assert(out@ =~= plus_join(toks));
    }
    out
}

/// One pending write to a cgroup control file.
pub struct CgroupWrite {
    pub file: String,
    pub value: String,
}

/// The mathematical value of a `CgroupWrite`.
pub struct CgroupWriteModel {
    pub file: Seq<char>,
    pub value: Seq<char>,
}

impl View for CgroupWrite {
    type V = CgroupWriteModel;

    open spec fn view(&self) -> CgroupWriteModel {
        CgroupWriteModel { file: self.file@, value: self.value@ }
    }
}

impl DeepView for CgroupWrite {
    type V = CgroupWriteModel;

    open spec fn deep_view(&self) -> CgroupWriteModel {
        self.view()
    }
}

/// The limit files a configuration asks for: `memory.max` as decimal
/// bytes, `cpu.max` as the caller's literal string, `pids.max` as a
/// decimal count — each only when set, in that order.
pub open spec fn limit_writes_model(
    memory: Option<u64>,
    cpu: Option<Seq<char>>,
    pids: Option<u64>,
) -> Seq<CgroupWriteModel> {
    (match memory {
        Some(m) => seq![CgroupWriteModel { file: "memory.max"@, value: dec_nat(m as nat) }],
        None => Seq::<CgroupWriteModel>::empty(),
    }) + (match cpu {
        Some(c) => seq![CgroupWriteModel { file: "cpu.max"@, value: c }],
        None => Seq::<CgroupWriteModel>::empty(),
    }) + (match pids {
        Some(p) => seq![CgroupWriteModel { file: "pids.max"@, value: dec_nat(p as nat) }],
        None => Seq::<CgroupWriteModel>::empty(),
    })
}

/// The control-file writes for the configured limits.
pub fn limit_writes(memory: Option<u64>, cpu: Option<&String>, pids: Option<u64>) -> (r: Vec<
    CgroupWrite,
>)
    ensures
        r.deep_view() == limit_writes_model(
            memory,
            match cpu {
                Some(c) => Some(c@),
                None => None,
            },
            pids,
        ),
{
    let mut v: Vec<CgroupWrite> = Vec::new();
    match memory {
        Some(m) => v.push(
            CgroupWrite { file: "memory.max".to_owned(), value: u64_string(m) },
        ),
        None => {},
    }
    match cpu {
        Some(c) => v.push(CgroupWrite { file: "cpu.max".to_owned(), value: c.clone() }),
        None => {},
    }
    match pids {
        Some(p) => v.push(CgroupWrite { file: "pids.max".to_owned(), value: u64_string(p) }),
        None => {},
    }
    proof {
        assert(v.deep_view() =~= limit_writes_model(
            memory,
            match cpu {
                Some(c) => Some(c@),
                None => None,
            },
            pids,
        ));
    }
    v
}

} // verus!
