//! Formatting of the container listing table: fixed-width columns,
//! command joining and truncation, and the display form of the
//! creation timestamp.

use vstd::prelude::*;

use crate::dec::dec_nat;
use crate::dec::u64_string;
use crate::model::status_seq;
use crate::model::ContainerMeta;
use crate::model::MetaModel;
use crate::text::push_char;
use crate::text::push_str;

verus! {

/// A run of `n` spaces.
pub open spec fn spaces(n: nat) -> Seq<char>
    decreases n,
{
    if n == 0 {
        Seq::<char>::empty()
    } else {
        seq![' '] + spaces((n - 1) as nat)
    }
}

proof fn lemma_spaces_snoc(n: nat)
    requires
        n > 0,
    ensures
        spaces(n) == spaces((n - 1) as nat) + seq![' '],
    decreases n,
{
    if n > 1 {
        lemma_spaces_snoc((n - 1) as nat);
        assert(spaces(n) =~= spaces((n - 1) as nat) + seq![' ']);
    } else {
        assert(spaces(n) =~= spaces((n - 1) as nat) + seq![' ']);
    }
}

/// `s` left-aligned in a field of width `w`: padded with spaces when
/// shorter, kept whole when longer.
pub open spec fn pad_seq(s: Seq<char>, w: nat) -> Seq<char> {
    if s.len() >= w {
        s
    } else {
        s + spaces((w - s.len()) as nat)
    }
}

/// Append `s` left-aligned in a field of width `w`.
fn push_padded(out: &mut String, s: &str, w: usize)
    ensures
        final(out)@ == old(out)@ + pad_seq(s@, w as nat),
{
    push_str(out, s);
    let n = s.unicode_len();
    if n < w {
        let mut k: usize = n;
        proof {
            assert(s@ + spaces(0) =~= s@);
        }
        while k < w
            invariant
                n == s@.len(),
                n <= k <= w,
                out@ == old(out)@ + s@ + spaces((k - n) as nat),
            decreases w - k,
        {
            push_char(out, ' ');
            k += 1;
            proof {
                lemma_spaces_snoc((k - n) as nat);
                assert(out@ =~= old(out)@ + s@ + spaces((k - n) as nat));
            }
        }
        proof {
            assert(out@ =~= old(out)@ + pad_seq(s@, w as nat));
        }
    } else {
        proof {
            assert(out@ =~= old(out)@ + pad_seq(s@, w as nat));
        }
    }
}

/// The items joined with single spaces.
pub open spec fn join_spaces(items: Seq<Seq<char>>) -> Seq<char>
    decreases items.len(),
{
    if items.len() == 0 {
        Seq::<char>::empty()
    } else if items.len() == 1 {
        items[0]
    } else {
        items[0] + seq![' '] + join_spaces(items.drop_first())
    }
}

/// Join strings with single spaces.
pub fn join_cmd(items: &Vec<String>) -> (r: String)
    ensures
        r@ == join_spaces(items.deep_view()),
{
    let mut out = String::new();
    let ghost dv = items.deep_view();
    let mut k: usize = 0;
    proof {
        assert(dv.skip(0) =~= dv);
        assert(out@ + join_spaces(dv) =~= join_spaces(dv));
    }
    while k < items.len()
        invariant
            0 <= k <= items@.len(),
            dv == items.deep_view(),
            out@ + join_spaces(dv.skip(k as int)) == join_spaces(dv),
        decreases items@.len() - k,
    {
        proof {
            assert(dv.skip(k as int)[0] == dv[k as int]);
            assert(dv.skip(k as int).drop_first() =~= dv.skip(k + 1));
        }
        push_str(&mut out, items[k].as_str());
        if k < items.len() - 1 {
            push_char(&mut out, ' ');
        }
        k += 1;
    }
    proof {
        assert(join_spaces(dv.skip(items@.len() as int)) =~= Seq::<char>::empty());
        assert(out@ =~= join_spaces(dv));
    }
    out
}

/// A command line shortened for the table: at most 40 characters, a
/// longer one cut to its first 37 with `...` appended.
pub open spec fn truncate_cmd(s: Seq<char>) -> Seq<char> {
    if s.len() > 40 {
        s.take(37) + "..."@
    } else {
        s
    }
}

/// The display form of the creation timestamp: a well-formed
/// `YYYY-MM-DDTHH:MM:SS...` becomes `YYYY-MM-DD HH:MM:SS UTC`; anything
/// else is shown as it is.
pub open spec fn created_display(ts: Seq<char>) -> Seq<char> {
    if ts.len() >= 19 && ts[10] == 'T' {
        ts.take(10) + " "@ + ts.subrange(11, 19) + " UTC"@
    } else {
        ts
    }
}

/// The table's ID column: an ID longer than 16 characters is cut to 16.
pub open spec fn id_display(id: Seq<char>) -> Seq<char> {
    if id.len() > 16 {
        id.take(16)
    } else {
        id
    }
}

/// The table's PID column: the decimal PID, or `-` when not running.
pub open spec fn pid_display(pid: u32) -> Seq<char> {
    if pid > 0 {
        dec_nat(pid as nat)
    } else {
        "-"@
    }
}

/// One row of the container table.
pub open spec fn row_model(m: MetaModel) -> Seq<char> {
    pad_seq(id_display(m.id), 18) + " "@ + pad_seq(pid_display(m.pid), 8) + " "@ + pad_seq(
        status_seq(m.status),
        10,
    ) + " "@ + pad_seq(created_display(m.created_at), 24) + " "@ + truncate_cmd(
        join_spaces(m.cmd),
    )
}

/// The table header.
pub fn format_ps_header() -> (r: String)
    ensures
        r@ == "CONTAINER ID       PID      STATUS     CREATED                  COMMAND"@,
{
    "CONTAINER ID       PID      STATUS     CREATED                  COMMAND".to_owned()
}

/// Format one container's row of the table.
pub fn format_ps_row(m: &ContainerMeta) -> (r: String)
    ensures
        r@ == row_model(m@),
{
    let mut out = String::new();
    let id_col = if m.id.as_str().unicode_len() > 16 {
        m.id.as_str().substring_char(0, 16).to_owned()
    } else {
        m.id.clone()
    };
    proof {
        assert(id_col@ == id_display(m.id@));
        assert(out@ + pad_seq(id_display(m.id@), 18) =~= pad_seq(id_display(m.id@), 18));
    }
    push_padded(&mut out, id_col.as_str(), 18);
    push_str(&mut out, " ");
    let pid_col = if m.pid > 0 {
        u64_string(m.pid as u64)
    } else {
        "-".to_owned()
    };
    push_padded(&mut out, pid_col.as_str(), 8);
    push_str(&mut out, " ");
    let status_col = m.status.status_string();
    push_padded(&mut out, status_col.as_str(), 10);
    push_str(&mut out, " ");
    let created_col = format_created(m.created_at.as_str());
    push_padded(&mut out, created_col.as_str(), 24);
    push_str(&mut out, " ");
    let joined = join_cmd(&m.cmd);
    let cmd_col = if joined.as_str().unicode_len() > 40 {
        let mut t = joined.as_str().substring_char(0, 37).to_owned();
        push_str(&mut t, "...");
        t
    } else {
        joined
    };
    push_str(&mut out, cmd_col.as_str());
    proof {
        assert(out@ =~= row_model(m@));
    }
    out
}

/// The display form of a creation timestamp.
pub fn format_created(ts: &str) -> (r: String)
    ensures
        r@ == created_display(ts@),
{
    let n = ts.unicode_len();
    if n >= 19 && ts.get_char(10) == 'T' {
        let mut out = ts.substring_char(0, 10).to_owned();
        push_str(&mut out, " ");
        push_str(&mut out, ts.substring_char(11, 19));
        push_str(&mut out, " UTC");
        proof {
            assert(out@ =~= created_display(ts@));
        }
        out
    } else {
        ts.to_owned()
    }
}

} // verus!
