//! The metadata document codec: pretty-printed JSON in a fixed field
//! order, written and read by verified code, with a proved round trip.
//!
//! The document has the shape
//! `{ "id", "rootfs", "cmd", "pid", "exit_code", "created_at",
//! "status", "hostname", "memory_limit", "cpu_limit", "pids_limit" }`,
//! two-space indented, with `null` for unset optional fields.

use vstd::prelude::*;

use crate::dec::dec_i32;
use crate::dec::dec_nat;
use crate::dec::is_digit_char;
use crate::dec::lemma_dec_nat_digits;
use crate::dec::lemma_sp_i32_round_trip;
use crate::dec::lemma_sp_u64_round_trip;
use crate::dec::sp_i32;
use crate::dec::sp_u64;
use crate::esc::lemma_sp_quoted;
use crate::esc::ser_string;
use crate::esc::sp_quoted;
use crate::esc::sp_string_body;
use crate::dec::push_i32_dec;
use crate::dec::push_u64_dec;
use crate::esc::push_json_string;
use crate::model::status_seq;
use crate::model::ContainerMeta;
use crate::model::ContainerStatus;
use crate::model::MetaModel;
use crate::parse::lemma_sp_lit;
use crate::parse::lemma_sp_lit_sound;
use crate::parse::p_i32;
use crate::parse::p_lit;
use crate::parse::p_quoted;
use crate::parse::p_u64;
use crate::parse::sp_lit;
use crate::text::chars_vec;
use crate::text::push_str;

verus! {

/// An optional unsigned number: `null` or a decimal numeral.
pub open spec fn ser_opt_u64(o: Option<u64>) -> Seq<char> {
    match o {
        None => "null"@,
        Some(n) => dec_nat(n as nat),
    }
}

/// An optional signed number: `null` or a decimal numeral.
pub open spec fn ser_opt_i32(o: Option<i32>) -> Seq<char> {
    match o {
        None => "null"@,
        Some(n) => dec_i32(n),
    }
}

/// An optional string: `null` or a quoted JSON string.
pub open spec fn ser_opt_string(o: Option<Seq<char>>) -> Seq<char> {
    match o {
        None => "null"@,
        Some(s) => ser_string(s),
    }
}

/// The items of a non-empty command array, one per line, four-space
/// indented, separated by commas.
pub open spec fn ser_cmd_items(items: Seq<Seq<char>>) -> Seq<char>
    decreases items.len(),
{
    if items.len() == 0 {
        Seq::<char>::empty()
    } else if items.len() == 1 {
        "\n    "@ + ser_string(items[0])
    } else {
        "\n    "@ + ser_string(items[0]) + ","@ + ser_cmd_items(items.drop_first())
    }
}

/// A command array.
pub open spec fn ser_cmd(items: Seq<Seq<char>>) -> Seq<char> {
    if items.len() == 0 {
        "[]"@
    } else {
        "["@ + ser_cmd_items(items) + "\n  ]"@
    }
}

/// The serialized metadata document.
pub open spec fn ser_meta(m: MetaModel) -> Seq<char> {
    "{\n  \"id\": "@ + ser_string(m.id) + ",\n  \"rootfs\": "@ + ser_string(m.rootfs)
        + ",\n  \"cmd\": "@ + ser_cmd(m.cmd) + ",\n  \"pid\": "@ + dec_nat(m.pid as nat)
        + ",\n  \"exit_code\": "@ + ser_opt_i32(m.exit_code) + ",\n  \"created_at\": "@
        + ser_string(m.created_at) + ",\n  \"status\": "@ + ser_string(status_seq(m.status))
        + ",\n  \"hostname\": "@ + ser_string(m.hostname) + ",\n  \"memory_limit\": "@
        + ser_opt_u64(m.memory_limit) + ",\n  \"cpu_limit\": "@ + ser_opt_string(m.cpu_limit)
        + ",\n  \"pids_limit\": "@ + ser_opt_u64(m.pids_limit) + "\n}"@
}

/// Parse an optional unsigned number.
pub open spec fn sp_opt_u64(s: Seq<char>) -> Option<(Option<u64>, Seq<char>)> {
    match sp_lit(s, "null"@) {
        Some(r) => Some((None, r)),
        None => match sp_u64(s) {
            Some((v, r)) => Some((Some(v), r)),
            None => None,
        },
    }
}

/// Parse an optional signed number.
pub open spec fn sp_opt_i32(s: Seq<char>) -> Option<(Option<i32>, Seq<char>)> {
    match sp_lit(s, "null"@) {
        Some(r) => Some((None, r)),
        None => match sp_i32(s) {
            Some((v, r)) => Some((Some(v), r)),
            None => None,
        },
    }
}

/// Parse an optional quoted string.
pub open spec fn sp_opt_string(s: Seq<char>) -> Option<(Option<Seq<char>>, Seq<char>)> {
    match sp_lit(s, "null"@) {
        Some(r) => Some((None, r)),
        None => match sp_quoted(s) {
            Some((v, r)) => Some((Some(v), r)),
            None => None,
        },
    }
}

/// Parse a quoted status name.
pub open spec fn sp_status(s: Seq<char>) -> Option<(ContainerStatus, Seq<char>)> {
    match sp_quoted(s) {
        Some((t, r)) => if t == "running"@ {
            Some((ContainerStatus::Running, r))
        } else if t == "stopped"@ {
            Some((ContainerStatus::Stopped, r))
        } else if t == "created"@ {
            Some((ContainerStatus::Created, r))
        } else {
            None
        },
        None => None,
    }
}

/// The rest of a successful string-body parse is strictly shorter than
/// its input.
proof fn lemma_sp_string_body_shrinks(s: Seq<char>)
    ensures
        sp_string_body(s) matches Some((t, r)) ==> r.len() < s.len(),
    decreases s.len(),
{
    if s.len() == 0 {
    } else if s[0] == '"' {
    } else if s[0] == '\\' {
        if s.len() >= 2 && s[1] == '"' {
            lemma_sp_string_body_shrinks(s.skip(2));
        } else if s.len() >= 2 && s[1] == '\\' {
            lemma_sp_string_body_shrinks(s.skip(2));
        } else if s.len() >= 6 {
            lemma_sp_string_body_shrinks(s.skip(6));
        }
    } else {
        lemma_sp_string_body_shrinks(s.skip(1));
    }
}

/// Parse the items of a non-empty command array.
pub open spec fn sp_cmd_items(s: Seq<char>) -> Option<(Seq<Seq<char>>, Seq<char>)>
    decreases s.len(),
    via sp_cmd_items_decreases
{
    match sp_lit(s, "\n    "@) {
        Some(r1) => match sp_quoted(r1) {
            Some((item, r2)) => if r2.len() >= 1 && r2[0] == ',' {
                match sp_cmd_items(r2.skip(1)) {
                    Some((items, r3)) => Some((seq![item] + items, r3)),
                    None => None,
                }
            } else {
                Some((seq![item], r2))
            },
            None => None,
        },
        None => None,
    }
}

#[via_fn]
proof fn sp_cmd_items_decreases(s: Seq<char>) {
    match sp_lit(s, "\n    "@) {
        Some(r1) => {
            assert(r1.len() <= s.len());
            if r1.len() >= 1 && r1[0] == '"' {
                lemma_sp_string_body_shrinks(r1.skip(1));
            }
        },
        None => {},
    }
}

/// Parse a command array.
pub open spec fn sp_cmd(s: Seq<char>) -> Option<(Seq<Seq<char>>, Seq<char>)> {
    match sp_lit(s, "[]"@) {
        Some(r) => Some((Seq::<Seq<char>>::empty(), r)),
        None => match sp_lit(s, "["@) {
            Some(r1) => match sp_cmd_items(r1) {
                Some((items, r2)) => match sp_lit(r2, "\n  ]"@) {
                    Some(r3) => Some((items, r3)),
                    None => None,
                },
                None => None,
            },
            None => None,
        },
    }
}

/// Parse a whole metadata document. The entire input must be consumed.
pub open spec fn sp_meta(s: Seq<char>) -> Option<MetaModel> {
    match sp_lit(s, "{\n  \"id\": "@) {
        Some(r1) => match sp_quoted(r1) {
            Some((id, r2)) => match sp_lit(r2, ",\n  \"rootfs\": "@) {
                Some(r3) => match sp_quoted(r3) {
                    Some((rootfs, r4)) => match sp_lit(r4, ",\n  \"cmd\": "@) {
                        Some(r5) => match sp_cmd(r5) {
                            Some((cmd, r6)) => match sp_lit(r6, ",\n  \"pid\": "@) {
                                Some(r7) => match sp_u64(r7) {
                                    Some((pid, r8)) => if pid <= u32::MAX {
                                        sp_meta_tail(id, rootfs, cmd, pid as u32, r8)
                                    } else {
                                        None
                                    },
                                    None => None,
                                },
                                None => None,
                            },
                            None => None,
                        },
                        None => None,
                    },
                    None => None,
                },
                None => None,
            },
            None => None,
        },
        None => None,
    }
}

/// The second half of the document parse, from `exit_code` on.
pub open spec fn sp_meta_tail(
    id: Seq<char>,
    rootfs: Seq<char>,
    cmd: Seq<Seq<char>>,
    pid: u32,
    r8: Seq<char>,
) -> Option<MetaModel> {
    match sp_lit(r8, ",\n  \"exit_code\": "@) {
        Some(r9) => match sp_opt_i32(r9) {
            Some((exit_code, r10)) => match sp_lit(r10, ",\n  \"created_at\": "@) {
                Some(r11) => match sp_quoted(r11) {
                    Some((created_at, r12)) => match sp_lit(r12, ",\n  \"status\": "@) {
                        Some(r13) => match sp_status(r13) {
                            Some((status, r14)) => match sp_lit(r14, ",\n  \"hostname\": "@) {
                                Some(r15) => match sp_quoted(r15) {
                                    Some((hostname, r16)) => sp_meta_tail2(
                                        MetaModel {
                                            id,
                                            rootfs,
                                            cmd,
                                            pid,
                                            exit_code,
                                            created_at,
                                            status,
                                            hostname,
                                            memory_limit: None,
                                            cpu_limit: None,
                                            pids_limit: None,
                                        },
                                        r16,
                                    ),
                                    None => None,
                                },
                                None => None,
                            },
                            None => None,
                        },
                        None => None,
                    },
                    None => None,
                },
                None => None,
            },
            None => None,
        },
        None => None,
    }
}

/// The last three optional fields of the document parse.
pub open spec fn sp_meta_tail2(m: MetaModel, r16: Seq<char>) -> Option<MetaModel> {
    match sp_lit(r16, ",\n  \"memory_limit\": "@) {
        Some(r17) => match sp_opt_u64(r17) {
            Some((memory_limit, r18)) => match sp_lit(r18, ",\n  \"cpu_limit\": "@) {
                Some(r19) => match sp_opt_string(r19) {
                    Some((cpu_limit, r20)) => match sp_lit(r20, ",\n  \"pids_limit\": "@) {
                        Some(r21) => match sp_opt_u64(r21) {
                            Some((pids_limit, r22)) => match sp_lit(r22, "\n}"@) {
                                Some(r23) => if r23.len() == 0 {
                                    Some(
                                        MetaModel {
                                            memory_limit,
                                            cpu_limit,
                                            pids_limit,
                                            ..m
                                        },
                                    )
                                } else {
                                    None
                                },
                                None => None,
                            },
                            None => None,
                        },
                        None => None,
                    },
                    None => None,
                },
                None => None,
            },
            None => None,
        },
        None => None,
    }
}

/// Round trip for optional unsigned numbers.
proof fn lemma_sp_opt_u64_rt(o: Option<u64>, rest: Seq<char>)
    requires
        rest.len() == 0 || !is_digit_char(rest[0]),
    ensures
        sp_opt_u64(ser_opt_u64(o) + rest) == Some((o, rest)),
{
    reveal_strlit("null");
    match o {
        None => {
            lemma_sp_lit("null"@, rest);
        },
        Some(n) => {
            let s = dec_nat(n as nat) + rest;
            lemma_dec_nat_digits(n as nat);
            if 4 <= s.len() && s.subrange(0, 4) == "null"@ {
                assert(s.subrange(0, 4)[0] == s[0]);
                assert(s[0] == dec_nat(n as nat)[0]);
                assert(is_digit_char(s[0]));
                assert("null"@[0] == 'n');
            }
            assert(sp_lit(s, "null"@) is None);
            lemma_sp_u64_round_trip(n, rest);
        },
    }
}

/// Round trip for optional signed numbers.
proof fn lemma_sp_opt_i32_rt(o: Option<i32>, rest: Seq<char>)
    requires
        rest.len() == 0 || !is_digit_char(rest[0]),
    ensures
        sp_opt_i32(ser_opt_i32(o) + rest) == Some((o, rest)),
{
    reveal_strlit("null");
    match o {
        None => {
            lemma_sp_lit("null"@, rest);
        },
        Some(n) => {
            let s = dec_i32(n) + rest;
            lemma_dec_nat_digits(n as nat);
            if n >= 0 {
                assert(s[0] == dec_nat(n as nat)[0]);
                lemma_dec_nat_digits(n as nat);
                assert(is_digit_char(s[0]));
            } else {
                lemma_dec_nat_digits((-(n as int)) as nat);
                assert(dec_i32(n)[0] == '-');
                assert(s[0] == '-');
            }
            if 4 <= s.len() && s.subrange(0, 4) == "null"@ {
                assert(s.subrange(0, 4)[0] == s[0]);
                assert("null"@[0] == 'n');
            }
            assert(sp_lit(s, "null"@) is None);
            lemma_sp_i32_round_trip(n, rest);
        },
    }
}

/// Round trip for optional strings.
proof fn lemma_sp_opt_string_rt(o: Option<Seq<char>>, rest: Seq<char>)
    ensures
        sp_opt_string(ser_opt_string(o) + rest) == Some((o, rest)),
{
    reveal_strlit("null");
    match o {
        None => {
            lemma_sp_lit("null"@, rest);
        },
        Some(v) => {
            let s = ser_string(v) + rest;
            assert(s[0] == '"');
            if 4 <= s.len() && s.subrange(0, 4) == "null"@ {
                assert(s.subrange(0, 4)[0] == s[0]);
                assert("null"@[0] == 'n');
            }
            assert(sp_lit(s, "null"@) is None);
            lemma_sp_quoted(v, rest);
        },
    }
}

/// Round trip for the status field.
proof fn lemma_sp_status_rt(st: ContainerStatus, rest: Seq<char>)
    ensures
        sp_status(ser_string(status_seq(st)) + rest) == Some((st, rest)),
{
    reveal_strlit("running");
    reveal_strlit("stopped");
    reveal_strlit("created");
    lemma_sp_quoted(status_seq(st), rest);
    match st {
        ContainerStatus::Running => {},
        ContainerStatus::Stopped => {
            if "stopped"@ == "running"@ {
                assert("stopped"@[0] == "running"@[0]);
            }
        },
        ContainerStatus::Created => {
            if "created"@ == "running"@ {
                assert("created"@[0] == "running"@[0]);
            }
            if "created"@ == "stopped"@ {
                assert("created"@[0] == "stopped"@[0]);
            }
        },
    }
}

/// Round trip for the items of a non-empty command array.
proof fn lemma_sp_cmd_items_rt(items: Seq<Seq<char>>, rest: Seq<char>)
    requires
        items.len() >= 1,
        rest.len() == 0 || rest[0] != ',',
    ensures
        sp_cmd_items(ser_cmd_items(items) + rest) == Some((items, rest)),
    decreases items.len(),
{
    reveal_strlit(",");
    if items.len() == 1 {
        let s = ser_cmd_items(items) + rest;
        assert(s =~= "\n    "@ + (ser_string(items[0]) + rest));
        lemma_sp_lit("\n    "@, ser_string(items[0]) + rest);
        lemma_sp_quoted(items[0], rest);
        assert(seq![items[0]] + Seq::<Seq<char>>::empty() =~= items.take(1));
        assert(seq![items[0]] =~= items);
    } else {
        let tail = items.drop_first();
        let t2 = ","@ + (ser_cmd_items(tail) + rest);
        let s = ser_cmd_items(items) + rest;
        assert(s =~= "\n    "@ + (ser_string(items[0]) + t2));
        lemma_sp_lit("\n    "@, ser_string(items[0]) + t2);
        lemma_sp_quoted(items[0], t2);
        assert(t2[0] == ',');
        assert(t2.skip(1) =~= ser_cmd_items(tail) + rest);
        lemma_sp_cmd_items_rt(tail, rest);
        assert(seq![items[0]] + tail =~= items);
    }
}

/// Round trip for the command array.
proof fn lemma_sp_cmd_rt(items: Seq<Seq<char>>, rest: Seq<char>)
    ensures
        sp_cmd(ser_cmd(items) + rest) == Some((items, rest)),
{
    reveal_strlit("[]");
    reveal_strlit("[");
    reveal_strlit("\n    ");
    reveal_strlit("\n  ]");
    if items.len() == 0 {
        lemma_sp_lit("[]"@, rest);
    } else {
        let after = "\n  ]"@ + rest;
        let s = ser_cmd(items) + rest;
        assert(s =~= "["@ + (ser_cmd_items(items) + after));
        assert(ser_cmd_items(items)[0] == '\n');
        assert(s.len() >= 2);
        assert(s[1] == '\n');
        if 2 <= s.len() && s.subrange(0, 2) == "[]"@ {
            assert(s.subrange(0, 2)[1] == s[1]);
            assert("[]"@[1] == ']');
        }
        assert(sp_lit(s, "[]"@) is None);
        lemma_sp_lit("["@, ser_cmd_items(items) + after);
        assert(after[0] == '\n');
        lemma_sp_cmd_items_rt(items, after);
        lemma_sp_lit("\n  ]"@, rest);
    }
}

/// The serialized tail of the document from `exit_code` on, as one
/// right-nested concatenation.
pub open spec fn ser_meta_tail(m: MetaModel) -> Seq<char> {
    ",\n  \"exit_code\": "@ + (ser_opt_i32(m.exit_code) + (",\n  \"created_at\": "@ + (ser_string(
        m.created_at,
    ) + (",\n  \"status\": "@ + (ser_string(status_seq(m.status)) + (",\n  \"hostname\": "@
        + (ser_string(m.hostname) + ser_meta_tail2(m))))))))
}

/// The serialized tail of the document from `memory_limit` on, as one
/// right-nested concatenation.
pub open spec fn ser_meta_tail2(m: MetaModel) -> Seq<char> {
    ",\n  \"memory_limit\": "@ + (ser_opt_u64(m.memory_limit) + (",\n  \"cpu_limit\": "@
        + (ser_opt_string(m.cpu_limit) + (",\n  \"pids_limit\": "@ + (ser_opt_u64(m.pids_limit)
        + "\n}"@)))))
}

/// Round trip for the last three optional fields.
proof fn lemma_sp_meta_tail2_rt(m: MetaModel)
    ensures
        sp_meta_tail2(
            MetaModel { memory_limit: None, cpu_limit: None, pids_limit: None, ..m },
            ser_meta_tail2(m),
        ) == Some(m),
{
    reveal_strlit(",\n  \"cpu_limit\": ");
    reveal_strlit(",\n  \"pids_limit\": ");
    reveal_strlit("\n}");
    let t23 = "\n}"@;
    let t22 = ser_opt_u64(m.pids_limit) + t23;
    let t21 = ",\n  \"pids_limit\": "@ + t22;
    let t20 = ser_opt_string(m.cpu_limit) + t21;
    let t19 = ",\n  \"cpu_limit\": "@ + t20;
    let t18 = ser_opt_u64(m.memory_limit) + t19;
    lemma_sp_lit(",\n  \"memory_limit\": "@, t18);
    assert(t19[0] == ',');
    lemma_sp_opt_u64_rt(m.memory_limit, t19);
    lemma_sp_lit(",\n  \"cpu_limit\": "@, t20);
    lemma_sp_opt_string_rt(m.cpu_limit, t21);
    lemma_sp_lit(",\n  \"pids_limit\": "@, t22);
    assert(t23[0] == '\n');
    lemma_sp_opt_u64_rt(m.pids_limit, t23);
    lemma_sp_lit("\n}"@, Seq::<char>::empty());
    assert(t23 =~= "\n}"@ + Seq::<char>::empty());
}

/// Round trip for the fields from `exit_code` to `hostname`.
proof fn lemma_sp_meta_tail_rt(m: MetaModel)
    ensures
        sp_meta_tail(m.id, m.rootfs, m.cmd, m.pid, ser_meta_tail(m)) == Some(m),
{
    reveal_strlit(",\n  \"created_at\": ");
    reveal_strlit(",\n  \"status\": ");
    reveal_strlit(",\n  \"hostname\": ");
    let t17 = ser_meta_tail2(m);
    let t16 = ser_string(m.hostname) + t17;
    let t15 = ",\n  \"hostname\": "@ + t16;
    let t14 = ser_string(status_seq(m.status)) + t15;
    let t13 = ",\n  \"status\": "@ + t14;
    let t12 = ser_string(m.created_at) + t13;
    let t11 = ",\n  \"created_at\": "@ + t12;
    let t10 = ser_opt_i32(m.exit_code) + t11;
    lemma_sp_lit(",\n  \"exit_code\": "@, t10);
    assert(t11[0] == ',');
    lemma_sp_opt_i32_rt(m.exit_code, t11);
    lemma_sp_lit(",\n  \"created_at\": "@, t12);
    lemma_sp_quoted(m.created_at, t13);
    lemma_sp_lit(",\n  \"status\": "@, t14);
    lemma_sp_status_rt(m.status, t15);
    lemma_sp_lit(",\n  \"hostname\": "@, t16);
    lemma_sp_quoted(m.hostname, t17);
    lemma_sp_meta_tail2_rt(m);
}

/// The serialized document equals its right-nested reading.
#[verifier::rlimit(100)]
proof fn lemma_ser_meta_nested(m: MetaModel)
    ensures
        ser_meta(m) == "{\n  \"id\": "@ + (ser_string(m.id) + (",\n  \"rootfs\": "@ + (ser_string(
            m.rootfs,
        ) + (",\n  \"cmd\": "@ + (ser_cmd(m.cmd) + (",\n  \"pid\": "@ + (dec_nat(m.pid as nat)
            + ser_meta_tail(m)))))))),
{
    let l1 = "{\n  \"id\": "@;
    let s1 = ser_string(m.id);
    let l2 = ",\n  \"rootfs\": "@;
    let s2 = ser_string(m.rootfs);
    let l3 = ",\n  \"cmd\": "@;
    let s3 = ser_cmd(m.cmd);
    let l4 = ",\n  \"pid\": "@;
    let s4 = dec_nat(m.pid as nat);
    let l5 = ",\n  \"exit_code\": "@;
    let s5 = ser_opt_i32(m.exit_code);
    let l6 = ",\n  \"created_at\": "@;
    let s6 = ser_string(m.created_at);
    let l7 = ",\n  \"status\": "@;
    let s7 = ser_string(status_seq(m.status));
    let l8 = ",\n  \"hostname\": "@;
    let s8 = ser_string(m.hostname);
    let l9 = ",\n  \"memory_limit\": "@;
    let s9 = ser_opt_u64(m.memory_limit);
    let l10 = ",\n  \"cpu_limit\": "@;
    let s10 = ser_opt_string(m.cpu_limit);
    let l11 = ",\n  \"pids_limit\": "@;
    let s11 = ser_opt_u64(m.pids_limit);
    let l12 = "\n}"@;
    let u11 = s11 + l12;
    let u11b = l11 + u11;
    let u10 = s10 + u11b;
    let u10b = l10 + u10;
    let u9 = s9 + u10b;
    let u9b = l9 + u9;
    let u8 = s8 + u9b;
    let u8b = l8 + u8;
    let u7 = s7 + u8b;
    let u7b = l7 + u7;
    let u6 = s6 + u7b;
    let u6b = l6 + u6;
    let u5 = s5 + u6b;
    let u5b = l5 + u5;
    let u4 = s4 + u5b;
    let u4b = l4 + u4;
    let u3 = s3 + u4b;
    let u3b = l3 + u3;
    let u2 = s2 + u3b;
    let u2b = l2 + u2;
    let u1 = s1 + u2b;
    let u1b = l1 + u1;
    let p1 = l1 + s1;
    let p2 = p1 + l2;
    let p3 = p2 + s2;
    let p4 = p3 + l3;
    let p5 = p4 + s3;
    let p6 = p5 + l4;
    let p7 = p6 + s4;
    let p8 = p7 + l5;
    let p9 = p8 + s5;
    let p10 = p9 + l6;
    let p11 = p10 + s6;
    let p12 = p11 + l7;
    let p13 = p12 + s7;
    let p14 = p13 + l8;
    let p15 = p14 + s8;
    let p16 = p15 + l9;
    let p17 = p16 + s9;
    let p18 = p17 + l10;
    let p19 = p18 + s10;
    let p20 = p19 + l11;
    let p21 = p20 + s11;
    assert(ser_meta(m) == p21 + l12);
    assert(p21 + l12 =~= p20 + u11);
    assert(p20 + u11 =~= p19 + u11b);
    assert(p19 + u11b =~= p18 + u10);
    assert(p18 + u10 =~= p17 + u10b);
    assert(p17 + u10b =~= p16 + u9);
    assert(p16 + u9 =~= p15 + u9b);
    assert(p15 + u9b =~= p14 + u8);
    assert(p14 + u8 =~= p13 + u8b);
    assert(p13 + u8b =~= p12 + u7);
    assert(p12 + u7 =~= p11 + u7b);
    assert(p11 + u7b =~= p10 + u6);
    assert(p10 + u6 =~= p9 + u6b);
    assert(p9 + u6b =~= p8 + u5);
    assert(p8 + u5 =~= p7 + u5b);
    assert(p7 + u5b =~= p6 + u4);
    assert(p6 + u4 =~= p5 + u4b);
    assert(p5 + u4b =~= p4 + u3);
    assert(p4 + u3 =~= p3 + u3b);
    assert(p3 + u3b =~= p2 + u2);
    assert(p2 + u2 =~= p1 + u2b);
    assert(p1 + u2b =~= l1 + u1);
    assert(ser_meta_tail(m) == u5b);
}

/// The round-trip law: parsing the serialized form of any metadata value
/// yields exactly that value.
#[verifier::rlimit(100)]
pub proof fn lemma_meta_round_trip(m: MetaModel)
    ensures
        sp_meta(ser_meta(m)) == Some(m),
{
    reveal_strlit(",\n  \"rootfs\": ");
    reveal_strlit(",\n  \"cmd\": ");
    reveal_strlit(",\n  \"pid\": ");
    reveal_strlit(",\n  \"exit_code\": ");
    lemma_ser_meta_nested(m);
    let t8 = ser_meta_tail(m);
    let t7 = dec_nat(m.pid as nat) + t8;
    let t6 = ",\n  \"pid\": "@ + t7;
    let t5 = ser_cmd(m.cmd) + t6;
    let t4 = ",\n  \"cmd\": "@ + t5;
    let t3 = ser_string(m.rootfs) + t4;
    let t2 = ",\n  \"rootfs\": "@ + t3;
    let t1 = ser_string(m.id) + t2;
    lemma_sp_lit("{\n  \"id\": "@, t1);
    lemma_sp_quoted(m.id, t2);
    lemma_sp_lit(",\n  \"rootfs\": "@, t3);
    lemma_sp_quoted(m.rootfs, t4);
    lemma_sp_lit(",\n  \"cmd\": "@, t5);
    assert(t6[0] == ',');
    lemma_sp_cmd_rt(m.cmd, t6);
    lemma_sp_lit(",\n  \"pid\": "@, t7);
    assert(t8[0] == ',');
    lemma_sp_u64_round_trip(m.pid as u64, t8);
    lemma_sp_meta_tail_rt(m);
}

/// A parsed optional unsigned number came from exactly its serialized
/// form.
proof fn lemma_sp_opt_u64_sound(s: Seq<char>)
    ensures
        sp_opt_u64(s) matches Some((o, r)) ==> s == ser_opt_u64(o) + r,
{
    if sp_opt_u64(s) is Some {
        lemma_sp_lit_sound(s, "null"@);
        crate::dec::lemma_sp_u64_sound(s);
    }
}

/// A parsed optional signed number came from exactly its serialized
/// form.
proof fn lemma_sp_opt_i32_sound(s: Seq<char>)
    ensures
        sp_opt_i32(s) matches Some((o, r)) ==> s == ser_opt_i32(o) + r,
{
    if sp_opt_i32(s) is Some {
        lemma_sp_lit_sound(s, "null"@);
        crate::dec::lemma_sp_i32_sound(s);
    }
}

/// A parsed optional string came from exactly its serialized form.
proof fn lemma_sp_opt_string_sound(s: Seq<char>)
    ensures
        sp_opt_string(s) matches Some((o, r)) ==> s == ser_opt_string(o) + r,
{
    if sp_opt_string(s) is Some {
        lemma_sp_lit_sound(s, "null"@);
        crate::esc::lemma_sp_quoted_sound(s);
    }
}

/// A parsed status came from exactly its serialized form.
proof fn lemma_sp_status_sound(s: Seq<char>)
    ensures
        sp_status(s) matches Some((st, r)) ==> s == ser_string(status_seq(st)) + r,
{
    if sp_status(s) is Some {
        crate::esc::lemma_sp_quoted_sound(s);
    }
}

/// Parsed command items came from exactly their serialized form, and
/// there is at least one of them.
proof fn lemma_sp_cmd_items_sound(s: Seq<char>)
    ensures
        sp_cmd_items(s) matches Some((items, r)) ==> items.len() >= 1 && s == ser_cmd_items(
            items,
        ) + r,
    decreases s.len(),
{
    reveal_strlit(",");
    if sp_cmd_items(s) is Some {
        let ir = sp_cmd_items(s)->Some_0;
        let items = ir.0;
        let r = ir.1;
        lemma_sp_lit_sound(s, "\n    "@);
        let r1 = sp_lit(s, "\n    "@)->Some_0;
        crate::esc::lemma_sp_quoted_sound(r1);
        let qr = sp_quoted(r1)->Some_0;
        let item = qr.0;
        let r2 = qr.1;
        assert(r1.len() >= 1 && r1[0] == '"');
        lemma_sp_string_body_shrinks(r1.skip(1));
        assert(r2.len() < r1.len());
        if r2.len() >= 1 && r2[0] == ',' {
            lemma_sp_cmd_items_sound(r2.skip(1));
            let ir2 = sp_cmd_items(r2.skip(1))->Some_0;
            assert(items == seq![item] + ir2.0 && r == ir2.1);
            assert(items.drop_first() =~= ir2.0);
            assert(items[0] == item);
            assert(items.len() >= 2);
            assert(seq![','] + r2.skip(1) =~= r2);
            assert(","@ =~= seq![',']);
            assert(ser_cmd_items(items) + r =~= "\n    "@ + (ser_string(item) + (seq![','] + (
            ser_cmd_items(ir2.0) + ir2.1))));
            assert(s =~= "\n    "@ + (ser_string(item) + (seq![','] + (ser_cmd_items(ir2.0)
                + ir2.1))));
        } else {
            assert(items =~= seq![item]);
            assert(items.len() == 1);
            assert(ser_cmd_items(items) + r =~= "\n    "@ + (ser_string(item) + r2));
            assert(s =~= "\n    "@ + (ser_string(item) + r2));
        }
    }
}

/// A parsed command array came from exactly its serialized form.
proof fn lemma_sp_cmd_sound(s: Seq<char>)
    ensures
        sp_cmd(s) matches Some((items, r)) ==> s == ser_cmd(items) + r,
{
    if sp_cmd(s) is Some {
        let ir = sp_cmd(s)->Some_0;
        let items = ir.0;
        let r = ir.1;
        if sp_lit(s, "[]"@) is Some {
            lemma_sp_lit_sound(s, "[]"@);
        } else {
            lemma_sp_lit_sound(s, "["@);
            let r1 = sp_lit(s, "["@)->Some_0;
            lemma_sp_cmd_items_sound(r1);
            let ir1 = sp_cmd_items(r1)->Some_0;
            lemma_sp_lit_sound(ir1.1, "\n  ]"@);
            assert(ser_cmd(items) + r =~= "["@ + (ser_cmd_items(items) + ("\n  ]"@ + r)));
            assert(s =~= "["@ + (ser_cmd_items(items) + ("\n  ]"@ + r)));
        }
    }
}

/// A parsed document tail (from `memory_limit` on) came from exactly
/// its serialized form, and only fills the three limit fields of the
/// base record.
proof fn lemma_sp_meta_tail2_sound(base: MetaModel, s: Seq<char>)
    ensures
        sp_meta_tail2(base, s) matches Some(m) ==> s == ser_meta_tail2(m) && m == (MetaModel {
            memory_limit: m.memory_limit,
            cpu_limit: m.cpu_limit,
            pids_limit: m.pids_limit,
            ..base
        }),
{
    if sp_meta_tail2(base, s) is Some {
        let m = sp_meta_tail2(base, s)->Some_0;
        lemma_sp_lit_sound(s, ",\n  \"memory_limit\": "@);
        let r17 = sp_lit(s, ",\n  \"memory_limit\": "@)->Some_0;
        lemma_sp_opt_u64_sound(r17);
        let p18 = sp_opt_u64(r17)->Some_0;
        lemma_sp_lit_sound(p18.1, ",\n  \"cpu_limit\": "@);
        let r19 = sp_lit(p18.1, ",\n  \"cpu_limit\": "@)->Some_0;
        lemma_sp_opt_string_sound(r19);
        let p20 = sp_opt_string(r19)->Some_0;
        lemma_sp_lit_sound(p20.1, ",\n  \"pids_limit\": "@);
        let r21 = sp_lit(p20.1, ",\n  \"pids_limit\": "@)->Some_0;
        lemma_sp_opt_u64_sound(r21);
        let p22 = sp_opt_u64(r21)->Some_0;
        lemma_sp_lit_sound(p22.1, "\n}"@);
        let r23 = sp_lit(p22.1, "\n}"@)->Some_0;
        assert(r23.len() == 0);
        assert("\n}"@ + r23 =~= "\n}"@);
        assert(ser_meta_tail2(m) =~= ",\n  \"memory_limit\": "@ + (ser_opt_u64(m.memory_limit) + (
        ",\n  \"cpu_limit\": "@ + (ser_opt_string(m.cpu_limit) + (",\n  \"pids_limit\": "@ + (
        ser_opt_u64(m.pids_limit) + "\n}"@))))));
        assert(s =~= ",\n  \"memory_limit\": "@ + (ser_opt_u64(p18.0) + (",\n  \"cpu_limit\": "@
            + (ser_opt_string(p20.0) + (",\n  \"pids_limit\": "@ + (ser_opt_u64(p22.0)
            + "\n}"@))))));
    }
}

/// A parsed document tail (from `exit_code` on) came from exactly its
/// serialized form, and keeps the four leading fields it was given.
proof fn lemma_sp_meta_tail_sound(
    id: Seq<char>,
    rootfs: Seq<char>,
    cmd: Seq<Seq<char>>,
    pid: u32,
    s: Seq<char>,
)
    ensures
        sp_meta_tail(id, rootfs, cmd, pid, s) matches Some(m) ==> s == ser_meta_tail(m) && m.id
            == id && m.rootfs == rootfs && m.cmd == cmd && m.pid == pid,
{
    if sp_meta_tail(id, rootfs, cmd, pid, s) is Some {
        let m = sp_meta_tail(id, rootfs, cmd, pid, s)->Some_0;
        lemma_sp_lit_sound(s, ",\n  \"exit_code\": "@);
        let r9 = sp_lit(s, ",\n  \"exit_code\": "@)->Some_0;
        lemma_sp_opt_i32_sound(r9);
        let p10 = sp_opt_i32(r9)->Some_0;
        lemma_sp_lit_sound(p10.1, ",\n  \"created_at\": "@);
        let r11 = sp_lit(p10.1, ",\n  \"created_at\": "@)->Some_0;
        crate::esc::lemma_sp_quoted_sound(r11);
        let p12 = sp_quoted(r11)->Some_0;
        lemma_sp_lit_sound(p12.1, ",\n  \"status\": "@);
        let r13 = sp_lit(p12.1, ",\n  \"status\": "@)->Some_0;
        lemma_sp_status_sound(r13);
        let p14 = sp_status(r13)->Some_0;
        lemma_sp_lit_sound(p14.1, ",\n  \"hostname\": "@);
        let r15 = sp_lit(p14.1, ",\n  \"hostname\": "@)->Some_0;
        crate::esc::lemma_sp_quoted_sound(r15);
        let p16 = sp_quoted(r15)->Some_0;
        let base = MetaModel {
            id,
            rootfs,
            cmd,
            pid,
            exit_code: p10.0,
            created_at: p12.0,
            status: p14.0,
            hostname: p16.0,
            memory_limit: None,
            cpu_limit: None,
            pids_limit: None,
        };
        lemma_sp_meta_tail2_sound(base, p16.1);
        assert(ser_meta_tail(m) =~= ",\n  \"exit_code\": "@ + (ser_opt_i32(m.exit_code) + (
        ",\n  \"created_at\": "@ + (ser_string(m.created_at) + (",\n  \"status\": "@ + (
        ser_string(status_seq(m.status)) + (",\n  \"hostname\": "@ + (ser_string(m.hostname)
            + ser_meta_tail2(m)))))))));
        assert(s =~= ",\n  \"exit_code\": "@ + (ser_opt_i32(p10.0) + (",\n  \"created_at\": "@ + (
        ser_string(p12.0) + (",\n  \"status\": "@ + (ser_string(status_seq(p14.0)) + (
        ",\n  \"hostname\": "@ + (ser_string(p16.0) + p16.1))))))));
    }
}

/// The converse of the round trip: any input the parser accepts is
/// exactly the canonical document of the value it returns. Together
/// with `lemma_meta_round_trip`, parsing and printing are inverse
/// bijections between canonical documents and metadata values.
pub proof fn lemma_meta_parse_sound(s: Seq<char>)
    ensures
        sp_meta(s) matches Some(m) ==> s == ser_meta(m),
{
    if sp_meta(s) is Some {
        let m = sp_meta(s)->Some_0;
        lemma_sp_lit_sound(s, "{\n  \"id\": "@);
        let r1 = sp_lit(s, "{\n  \"id\": "@)->Some_0;
        crate::esc::lemma_sp_quoted_sound(r1);
        let p2 = sp_quoted(r1)->Some_0;
        lemma_sp_lit_sound(p2.1, ",\n  \"rootfs\": "@);
        let r3 = sp_lit(p2.1, ",\n  \"rootfs\": "@)->Some_0;
        crate::esc::lemma_sp_quoted_sound(r3);
        let p4 = sp_quoted(r3)->Some_0;
        lemma_sp_lit_sound(p4.1, ",\n  \"cmd\": "@);
        let r5 = sp_lit(p4.1, ",\n  \"cmd\": "@)->Some_0;
        lemma_sp_cmd_sound(r5);
        let p6 = sp_cmd(r5)->Some_0;
        lemma_sp_lit_sound(p6.1, ",\n  \"pid\": "@);
        let r7 = sp_lit(p6.1, ",\n  \"pid\": "@)->Some_0;
        crate::dec::lemma_sp_u64_sound(r7);
        let p8 = sp_u64(r7)->Some_0;
        lemma_sp_meta_tail_sound(p2.0, p4.0, p6.0, p8.0 as u32, p8.1);
        lemma_ser_meta_nested(m);
        assert(dec_nat((p8.0 as u32) as nat) == dec_nat(p8.0 as nat));
        assert(s =~= "{\n  \"id\": "@ + (ser_string(p2.0) + (",\n  \"rootfs\": "@ + (ser_string(
            p4.0,
        ) + (",\n  \"cmd\": "@ + (ser_cmd(p6.0) + (",\n  \"pid\": "@ + (dec_nat(p8.0 as nat)
            + p8.1))))))));
        assert(ser_meta(m) == "{\n  \"id\": "@ + (ser_string(m.id) + (",\n  \"rootfs\": "@ + (
        ser_string(m.rootfs) + (",\n  \"cmd\": "@ + (ser_cmd(m.cmd) + (",\n  \"pid\": "@ + (
        dec_nat(m.pid as nat) + ser_meta_tail(m)))))))));
    }
}

/// The mathematical value of an optional string.
pub open spec fn view_opt_string(o: Option<String>) -> Option<Seq<char>> {
    match o {
        Some(s) => Some(s@),
        None => None,
    }
}

/// Append the items of a non-empty command array.
fn push_cmd_items(out: &mut String, cmd: &Vec<String>, idx: usize)
    requires
        idx < cmd@.len(),
    ensures
        final(out)@ == old(out)@ + ser_cmd_items(cmd.deep_view().skip(idx as int)),
    decreases cmd@.len() - idx,
{
    let ghost dv = cmd.deep_view();
    push_str(out, "\n    ");
    push_json_string(out, cmd[idx].as_str());
    proof {
        assert(dv.skip(idx as int)[0] == dv[idx as int]);
        assert(dv.skip(idx as int).len() == dv.len() - idx);
    }
    let n = cmd.len();
    if n - idx > 1 {
        push_str(out, ",");
        push_cmd_items(out, cmd, idx + 1);
        proof {
            assert(dv.skip(idx as int).drop_first() =~= dv.skip(idx + 1));
            assert(out@ =~= old(out)@ + ser_cmd_items(dv.skip(idx as int)));
        }
    } else {
        proof {
            assert(dv.skip(idx as int).len() == 1);
            assert(out@ =~= old(out)@ + ser_cmd_items(dv.skip(idx as int)));
        }
    }
}

/// Append a command array.
fn push_cmd(out: &mut String, cmd: &Vec<String>)
    ensures
        final(out)@ == old(out)@ + ser_cmd(cmd.deep_view()),
{
    if cmd.len() == 0 {
        push_str(out, "[]");
    } else {
        push_str(out, "[");
        push_cmd_items(out, cmd, 0);
        proof {
            assert(cmd.deep_view().skip(0) =~= cmd.deep_view());
        }
        push_str(out, "\n  ]");
        proof {
            assert(out@ =~= old(out)@ + ser_cmd(cmd.deep_view()));
        }
    }
}

/// Serialize a metadata value to its canonical document.
pub fn serialize_meta(m: &ContainerMeta) -> (r: String)
    ensures
        r@ == ser_meta(m@),
{
    let mut out = "{\n  \"id\": ".to_owned();
    push_json_string(&mut out, m.id.as_str());
    push_str(&mut out, ",\n  \"rootfs\": ");
    push_json_string(&mut out, m.rootfs.as_str());
    push_str(&mut out, ",\n  \"cmd\": ");
    push_cmd(&mut out, &m.cmd);
    push_str(&mut out, ",\n  \"pid\": ");
    push_u64_dec(&mut out, m.pid as u64);
    push_str(&mut out, ",\n  \"exit_code\": ");
    match &m.exit_code {
        Some(n) => push_i32_dec(&mut out, *n),
        None => push_str(&mut out, "null"),
    }
    push_str(&mut out, ",\n  \"created_at\": ");
    push_json_string(&mut out, m.created_at.as_str());
    push_str(&mut out, ",\n  \"status\": ");
    let st = m.status.status_string();
    push_json_string(&mut out, st.as_str());
    push_str(&mut out, ",\n  \"hostname\": ");
    push_json_string(&mut out, m.hostname.as_str());
    push_str(&mut out, ",\n  \"memory_limit\": ");
    match &m.memory_limit {
        Some(n) => push_u64_dec(&mut out, *n),
        None => push_str(&mut out, "null"),
    }
    push_str(&mut out, ",\n  \"cpu_limit\": ");
    match &m.cpu_limit {
        Some(s) => push_json_string(&mut out, s.as_str()),
        None => push_str(&mut out, "null"),
    }
    push_str(&mut out, ",\n  \"pids_limit\": ");
    match &m.pids_limit {
        Some(n) => push_u64_dec(&mut out, *n),
        None => push_str(&mut out, "null"),
    }
    push_str(&mut out, "\n}");
    out
}

/// Parse an optional unsigned number at position `i`.
fn p_opt_u64(cs: &Vec<char>, i: usize) -> (r: Option<(Option<u64>, usize)>)
    requires
        i <= cs@.len(),
    ensures
        match r {
            Some((v, j)) => i <= j <= cs@.len() && sp_opt_u64(cs@.skip(i as int)) == Some(
                (v, cs@.skip(j as int)),
            ),
            None => sp_opt_u64(cs@.skip(i as int)) is None,
        },
{
    match p_lit(cs, i, "null") {
        Some(j) => Some((None, j)),
        None => match p_u64(cs, i) {
            Some((v, j)) => Some((Some(v), j)),
            None => None,
        },
    }
}

/// Parse an optional signed number at position `i`.
fn p_opt_i32(cs: &Vec<char>, i: usize) -> (r: Option<(Option<i32>, usize)>)
    requires
        i <= cs@.len(),
    ensures
        match r {
            Some((v, j)) => i <= j <= cs@.len() && sp_opt_i32(cs@.skip(i as int)) == Some(
                (v, cs@.skip(j as int)),
            ),
            None => sp_opt_i32(cs@.skip(i as int)) is None,
        },
{
    match p_lit(cs, i, "null") {
        Some(j) => Some((None, j)),
        None => match p_i32(cs, i) {
            Some((v, j)) => Some((Some(v), j)),
            None => None,
        },
    }
}

/// Parse an optional quoted string at position `i`.
fn p_opt_string(cs: &Vec<char>, i: usize) -> (r: Option<(Option<String>, usize)>)
    requires
        i <= cs@.len(),
    ensures
        match r {
            Some((v, j)) => i <= j <= cs@.len() && sp_opt_string(cs@.skip(i as int)) == Some(
                (view_opt_string(v), cs@.skip(j as int)),
            ),
            None => sp_opt_string(cs@.skip(i as int)) is None,
        },
{
    match p_lit(cs, i, "null") {
        Some(j) => Some((None, j)),
        None => match p_quoted(cs, i) {
            Some((v, j)) => Some((Some(v), j)),
            None => None,
        },
    }
}

/// Parse a quoted status name at position `i`.
fn p_status(cs: &Vec<char>, i: usize) -> (r: Option<(ContainerStatus, usize)>)
    requires
        i <= cs@.len(),
    ensures
        match r {
            Some((v, j)) => i <= j <= cs@.len() && sp_status(cs@.skip(i as int)) == Some(
                (v, cs@.skip(j as int)),
            ),
            None => sp_status(cs@.skip(i as int)) is None,
        },
{
    match p_quoted(cs, i) {
        Some((t, j)) => {
            let running = "running".to_owned();
            let stopped = "stopped".to_owned();
            let created = "created".to_owned();
            if t == running {
                Some((ContainerStatus::Running, j))
            } else if t == stopped {
                Some((ContainerStatus::Stopped, j))
            } else if t == created {
                Some((ContainerStatus::Created, j))
            } else {
                None
            }
        },
        None => None,
    }
}

/// Parse the items of a non-empty command array at position `i`.
fn p_cmd_items(cs: &Vec<char>, i: usize) -> (r: Option<(Vec<String>, usize)>)
    requires
        i <= cs@.len(),
    ensures
        match r {
            Some((v, j)) => i <= j <= cs@.len() && sp_cmd_items(cs@.skip(i as int)) == Some(
                (v.deep_view(), cs@.skip(j as int)),
            ),
            None => sp_cmd_items(cs@.skip(i as int)) is None,
        },
    decreases cs@.len() - i,
{
    let j1 = match p_lit(cs, i, "\n    ") {
        Some(j) => j,
        None => {
            return None;
        },
    };
    let (item, j2) = match p_quoted(cs, j1) {
        Some(x) => x,
        None => {
            return None;
        },
    };
    proof {
        if j2 < cs@.len() {
            assert(cs@.skip(j2 as int)[0] == cs@[j2 as int]);
        }
    }
    if j2 < cs.len() && cs[j2] == ',' {
        proof {
            assert(cs@.skip(j2 as int).skip(1) =~= cs@.skip(j2 + 1));
        }
        match p_cmd_items(cs, j2 + 1) {
            Some((tail, j3)) => {
                let ghost tail_dv = tail.deep_view();
                let mut items = tail;
                items.insert(0, item);
                proof {
                    assert(items.deep_view() =~= seq![item@] + tail_dv);
                }
                Some((items, j3))
            },
            None => None,
        }
    } else {
        let mut items: Vec<String> = Vec::new();
        items.push(item);
        proof {
            assert(items.deep_view() =~= seq![item@]);
        }
        Some((items, j2))
    }
}

/// Parse a command array at position `i`.
fn p_cmd(cs: &Vec<char>, i: usize) -> (r: Option<(Vec<String>, usize)>)
    requires
        i <= cs@.len(),
    ensures
        match r {
            Some((v, j)) => i <= j <= cs@.len() && sp_cmd(cs@.skip(i as int)) == Some(
                (v.deep_view(), cs@.skip(j as int)),
            ),
            None => sp_cmd(cs@.skip(i as int)) is None,
        },
{
    match p_lit(cs, i, "[]") {
        Some(j) => {
            let items: Vec<String> = Vec::new();
            proof {
                assert(items.deep_view() =~= Seq::<Seq<char>>::empty());
            }
            Some((items, j))
        },
        None => match p_lit(cs, i, "[") {
            Some(j1) => match p_cmd_items(cs, j1) {
                Some((items, j2)) => match p_lit(cs, j2, "\n  ]") {
                    Some(j3) => Some((items, j3)),
                    None => None,
                },
                None => None,
            },
            None => None,
        },
    }
}

/// Parse the last three optional fields and the closing brace, filling
/// them into `base`. The whole input must end here.
fn p_meta_tail2(cs: &Vec<char>, i: usize, base: ContainerMeta) -> (r: Option<ContainerMeta>)
    requires
        i <= cs@.len(),
        base.memory_limit is None,
        base.cpu_limit is None,
        base.pids_limit is None,
    ensures
        match r {
            Some(m) => sp_meta_tail2(base@, cs@.skip(i as int)) == Some(m@),
            None => sp_meta_tail2(base@, cs@.skip(i as int)) is None,
        },
{
    let j17 = match p_lit(cs, i, ",\n  \"memory_limit\": ") {
        Some(j) => j,
        None => {
            return None;
        },
    };
    let (memory_limit, j18) = match p_opt_u64(cs, j17) {
        Some(x) => x,
        None => {
            return None;
        },
    };
    let j19 = match p_lit(cs, j18, ",\n  \"cpu_limit\": ") {
        Some(j) => j,
        None => {
            return None;
        },
    };
    let (cpu_limit, j20) = match p_opt_string(cs, j19) {
        Some(x) => x,
        None => {
            return None;
        },
    };
    let j21 = match p_lit(cs, j20, ",\n  \"pids_limit\": ") {
        Some(j) => j,
        None => {
            return None;
        },
    };
    let (pids_limit, j22) = match p_opt_u64(cs, j21) {
        Some(x) => x,
        None => {
            return None;
        },
    };
    let j23 = match p_lit(cs, j22, "\n}") {
        Some(j) => j,
        None => {
            return None;
        },
    };
    if j23 == cs.len() {
        proof {
            assert(cs@.skip(j23 as int).len() == 0);
        }
        Some(ContainerMeta { memory_limit, cpu_limit, pids_limit, ..base })
    } else {
        proof {
            assert(cs@.skip(j23 as int).len() > 0);
        }
        None
    }
}

/// Parse the fields from `exit_code` to `hostname`, then hand off to the
/// tail parser.
fn p_meta_tail(
    cs: &Vec<char>,
    i: usize,
    id: String,
    rootfs: String,
    cmd: Vec<String>,
    pid: u32,
) -> (r: Option<ContainerMeta>)
    requires
        i <= cs@.len(),
    ensures
        match r {
            Some(m) => sp_meta_tail(id@, rootfs@, cmd.deep_view(), pid, cs@.skip(i as int))
                == Some(m@),
            None => sp_meta_tail(id@, rootfs@, cmd.deep_view(), pid, cs@.skip(i as int)) is None,
        },
{
    let j9 = match p_lit(cs, i, ",\n  \"exit_code\": ") {
        Some(j) => j,
        None => {
            return None;
        },
    };
    let (exit_code, j10) = match p_opt_i32(cs, j9) {
        Some(x) => x,
        None => {
            return None;
        },
    };
    let j11 = match p_lit(cs, j10, ",\n  \"created_at\": ") {
        Some(j) => j,
        None => {
            return None;
        },
    };
    let (created_at, j12) = match p_quoted(cs, j11) {
        Some(x) => x,
        None => {
            return None;
        },
    };
    let j13 = match p_lit(cs, j12, ",\n  \"status\": ") {
        Some(j) => j,
        None => {
            return None;
        },
    };
    let (status, j14) = match p_status(cs, j13) {
        Some(x) => x,
        None => {
            return None;
        },
    };
    let j15 = match p_lit(cs, j14, ",\n  \"hostname\": ") {
        Some(j) => j,
        None => {
            return None;
        },
    };
    let (hostname, j16) = match p_quoted(cs, j15) {
        Some(x) => x,
        None => {
            return None;
        },
    };
    let base = ContainerMeta {
        id,
        rootfs,
        cmd,
        pid,
        exit_code,
        created_at,
        status,
        hostname,
        memory_limit: None,
        cpu_limit: None,
        pids_limit: None,
    };
    p_meta_tail2(cs, j16, base)
}

/// Parse a metadata document. The entire input must be one canonical
/// document; anything else yields nothing. An accepted input is
/// exactly the serialized form of the returned value.
#[verifier::rlimit(100)]
pub fn parse_meta(s: &str) -> (r: Option<ContainerMeta>)
    ensures
        match r {
            Some(m) => sp_meta(s@) == Some(m@) && s@ == ser_meta(m@),
            None => sp_meta(s@) is None,
        },
{
    let cs = chars_vec(s);
    proof {
        assert(cs@.skip(0) =~= cs@);
        lemma_meta_parse_sound(cs@);
    }
    let j1 = match p_lit(&cs, 0, "{\n  \"id\": ") {
        Some(j) => j,
        None => {
            return None;
        },
    };
    let (id, j2) = match p_quoted(&cs, j1) {
        Some(x) => x,
        None => {
            return None;
        },
    };
    let j3 = match p_lit(&cs, j2, ",\n  \"rootfs\": ") {
        Some(j) => j,
        None => {
            return None;
        },
    };
    let (rootfs, j4) = match p_quoted(&cs, j3) {
        Some(x) => x,
        None => {
            return None;
        },
    };
    let j5 = match p_lit(&cs, j4, ",\n  \"cmd\": ") {
        Some(j) => j,
        None => {
            return None;
        },
    };
    let (cmd, j6) = match p_cmd(&cs, j5) {
        Some(x) => x,
        None => {
            return None;
        },
    };
    let j7 = match p_lit(&cs, j6, ",\n  \"pid\": ") {
        Some(j) => j,
        None => {
            return None;
        },
    };
    let (pidv, j8) = match p_u64(&cs, j7) {
        Some(x) => x,
        None => {
            return None;
        },
    };
    if pidv > 0xffff_ffffu64 {
        return None;
    }
    p_meta_tail(&cs, j8, id, rootfs, cmd, pidv as u32)
}

} // verus!
