//! Shared pieces of the `Key: Value` sections: one rendered line per set
//! field, nothing for an absent one.

use crate::decimal::Decimal;
use crate::decimal::dec_valid;
use crate::decimal::spec_render_dec;
use crate::numeric::spec_render_i32;
use vstd::prelude::*;

verus! {

/// A `KeyValue\n` segment for a set text field (the key carries its own
/// separator and spacing).
pub open spec fn spec_kv_seg(key: Seq<char>, v: Option<Seq<char>>) -> Seq<char> {
    match v {
        Some(x) => key + x + seq!['\n'],
        None => Seq::<char>::empty(),
    }
}

pub open spec fn spec_kv_seg_i32(key: Seq<char>, v: Option<i32>) -> Seq<char> {
    match v {
        Some(x) => key + spec_render_i32(x as int) + seq!['\n'],
        None => Seq::<char>::empty(),
    }
}

pub open spec fn spec_kv_seg_dec(key: Seq<char>, v: Option<Decimal>) -> Seq<char> {
    match v {
        Some(x) => key + spec_render_dec(x) + seq!['\n'],
        None => Seq::<char>::empty(),
    }
}

/// A `0`/`1` flag segment.
pub open spec fn spec_kv_seg_bool(key: Seq<char>, v: Option<bool>) -> Seq<char> {
    match v {
        Some(b) => key + (if b {
            seq!['1']
        } else {
            seq!['0']
        }) + seq!['\n'],
        None => Seq::<char>::empty(),
    }
}

/// Appends `keyvalue\n` when the field is set.
pub fn kv_line_str(key: &str, v: &Option<String>, out: &mut String)
    ensures
        final(out)@ == old(out)@ + spec_kv_seg(
            key@,
            match *v {
                Some(ref x) => Some(x@),
                None => None,
            },
        ),
{
    if let Some(x) = v {
        out.append(key);
        out.append(x.as_str());
        out.append("\n");
        proof {
            reveal_strlit("\n");
            assert("\n"@ =~= seq!['\n']);
            assert(out@ =~= old(out)@ + (key@ + x@ + seq!['\n']));
        }
    } else {
        proof {
            assert(out@ =~= old(out)@ + Seq::<char>::empty());
        }
    }
}

pub fn kv_line_i32(key: &str, v: &Option<i32>, out: &mut String)
    ensures
        final(out)@ == old(out)@ + spec_kv_seg_i32(key@, *v),
{
    if let Some(x) = v {
        out.append(key);
        crate::numeric::render_i32(*x, out);
        out.append("\n");
        proof {
            reveal_strlit("\n");
            assert("\n"@ =~= seq!['\n']);
            assert(out@ =~= old(out)@ + (key@ + spec_render_i32(*x as int) + seq!['\n']));
        }
    } else {
        proof {
            assert(out@ =~= old(out)@ + Seq::<char>::empty());
        }
    }
}

pub fn kv_line_dec(key: &str, v: &Option<Decimal>, out: &mut String)
    requires
        match *v {
            Some(d) => dec_valid(d),
            None => true,
        },
    ensures
        final(out)@ == old(out)@ + spec_kv_seg_dec(key@, *v),
{
    if let Some(x) = v {
        out.append(key);
        crate::decimal::render_dec(x, out);
        out.append("\n");
        proof {
            reveal_strlit("\n");
            assert("\n"@ =~= seq!['\n']);
            assert(out@ =~= old(out)@ + (key@ + spec_render_dec(*x) + seq!['\n']));
        }
    } else {
        proof {
            assert(out@ =~= old(out)@ + Seq::<char>::empty());
        }
    }
}

pub fn kv_line_bool(key: &str, v: &Option<bool>, out: &mut String)
    ensures
        final(out)@ == old(out)@ + spec_kv_seg_bool(key@, *v),
{
    if let Some(x) = v {
        out.append(key);
        if *x {
            out.append("1");
        } else {
            out.append("0");
        }
        out.append("\n");
        proof {
            reveal_strlit("\n");
            reveal_strlit("1");
            reveal_strlit("0");
            assert("\n"@ =~= seq!['\n']);
            assert("1"@ =~= seq!['1']);
            assert("0"@ =~= seq!['0']);
            assert(out@ =~= old(out)@ + spec_kv_seg_bool(key@, *v));
        }
    } else {
        proof {
            assert(out@ =~= old(out)@ + Seq::<char>::empty());
        }
    }
}

} // verus!
