//! Artifact naming and log trailers. Each iteration owns a fixed set of
//! local files keyed by a scale-derived prefix; distinct scales never share
//! a file.

use vstd::prelude::*;

use crate::text::{all_digits, dec_val, digit_val, is_digit};

verus! {

/// Decimal digits of `n`, most significant first, no leading zeros.
pub open spec fn dec_repr(n: nat) -> Seq<u8>
    decreases n,
{
    if n < 10 {
        seq![(48 + n) as u8]
    } else {
        dec_repr(n / 10).push((48 + n % 10) as u8)
    }
}

/// Append the decimal digits of `n`.
pub fn push_dec(n: usize, out: &mut Vec<u8>)
    ensures
        final(out)@ == old(out)@ + dec_repr(n as nat),
    decreases n,
{
    if n < 10 {
        out.push(48 + (n as u8));
        proof {
            assert(out@ =~= old(out)@ + dec_repr(n as nat));
        }
    } else {
        push_dec(n / 10, out);
        out.push(48 + ((n % 10) as u8));
        proof {
            assert(out@ =~= old(out)@ + dec_repr(n as nat));
        }
    }
}

/// Append `pat` to `out`.
pub fn push_bytes(out: &mut Vec<u8>, pat: &[u8])
    ensures
        final(out)@ == old(out)@ + pat@,
{
    let mut k: usize = 0;
    while k < pat.len()
        invariant
            k <= pat@.len(),
            out@ =~= old(out)@ + pat@.subrange(0, k as int),
        decreases pat@.len() - k,
    {
        out.push(pat[k]);
        proof {
            assert(out@ =~= old(out)@ + pat@.subrange(0, k + 1));
        }
        k = k + 1;
    }
    proof {
        assert(pat@.subrange(0, pat@.len() as int) =~= pat@);
    }
}

/// The constant part of every artifact prefix: `lobsters-direct-`.
pub open spec fn prefix_base() -> Seq<u8> {
    seq![
        108u8, 111u8, 98u8, 115u8, 116u8, 101u8, 114u8, 115u8, 45u8, 100u8, 105u8, 114u8, 101u8,
        99u8, 116u8, 45u8,
    ]
}

/// The scale-derived prefix naming one iteration's artifacts.
pub open spec fn prefix_spec(scale: usize) -> Seq<u8> {
    prefix_base() + dec_repr(scale as nat)
}

pub fn artifact_prefix(scale: usize) -> (v: Vec<u8>)
    ensures
        v@ == prefix_spec(scale),
{
    let mut v: Vec<u8> = vec![
        108u8, 111u8, 98u8, 115u8, 116u8, 101u8, 114u8, 115u8, 45u8, 100u8, 105u8, 114u8, 101u8,
        99u8, 116u8, 45u8,
    ];
    proof {
        assert(v@ =~= prefix_base());
    }
    push_dec(scale, &mut v);
    v
}

/// `<prefix>.log`: the captured measure-phase data stream.
pub open spec fn log_name_spec(scale: usize) -> Seq<u8> {
    prefix_spec(scale) + seq![46u8, 108u8, 111u8, 103u8]
}

pub fn log_name(scale: usize) -> (v: Vec<u8>)
    ensures
        v@ == log_name_spec(scale),
{
    let mut v = artifact_prefix(scale);
    let ext: Vec<u8> = vec![46u8, 108u8, 111u8, 103u8];
    push_bytes(&mut v, ext.as_slice());
    proof {
        assert(v@ =~= log_name_spec(scale));
    }
    v
}

/// `<prefix>.hist`: the verbatim copy of the remote latency histogram.
pub open spec fn hist_name_spec(scale: usize) -> Seq<u8> {
    prefix_spec(scale) + seq![46u8, 104u8, 105u8, 115u8, 116u8]
}

pub fn hist_name(scale: usize) -> (v: Vec<u8>)
    ensures
        v@ == hist_name_spec(scale),
{
    let mut v = artifact_prefix(scale);
    let ext: Vec<u8> = vec![46u8, 104u8, 105u8, 115u8, 116u8];
    push_bytes(&mut v, ext.as_slice());
    proof {
        assert(v@ =~= hist_name_spec(scale));
    }
    v
}

/// `<prefix>-statistics.json`: the target-process statistics snapshot.
pub open spec fn stats_name_spec(scale: usize) -> Seq<u8> {
    prefix_spec(scale) + seq![
        45u8, 115u8, 116u8, 97u8, 116u8, 105u8, 115u8, 116u8, 105u8, 99u8, 115u8, 46u8, 106u8,
        115u8, 111u8, 110u8,
    ]
}

pub fn stats_name(scale: usize) -> (v: Vec<u8>)
    ensures
        v@ == stats_name_spec(scale),
{
    let mut v = artifact_prefix(scale);
    let ext: Vec<u8> = vec![
        45u8, 115u8, 116u8, 97u8, 116u8, 105u8, 115u8, 116u8, 105u8, 99u8, 115u8, 46u8, 106u8,
        115u8, 111u8, 110u8,
    ];
    push_bytes(&mut v, ext.as_slice());
    proof {
        assert(v@ =~= stats_name_spec(scale));
    }
    v
}

/// `# server load: ` — label of the target-host load trailer line.
pub open spec fn server_load_label() -> Seq<u8> {
    seq![
        35u8, 32u8, 115u8, 101u8, 114u8, 118u8, 101u8, 114u8, 32u8, 108u8, 111u8, 97u8, 100u8,
        58u8, 32u8,
    ]
}

/// `# client load: ` — label of the driver-host load trailer line.
pub open spec fn client_load_label() -> Seq<u8> {
    seq![
        35u8, 32u8, 99u8, 108u8, 105u8, 101u8, 110u8, 116u8, 32u8, 108u8, 111u8, 97u8, 100u8, 58u8,
        32u8,
    ]
}

/// One of the two trailer lines appended to the log after the stream is
/// drained: the label, the one-minute load, a space, the five-minute load,
/// and a newline.
pub fn load_line(server: bool, one_min: &[u8], five_min: &[u8]) -> (v: Vec<u8>)
    ensures
        v@ == (if server {
            server_load_label()
        } else {
            client_load_label()
        }) + one_min@ + seq![32u8] + five_min@ + seq![10u8],
{
    let mut v: Vec<u8> = if server {
        vec![
            35u8, 32u8, 115u8, 101u8, 114u8, 118u8, 101u8, 114u8, 32u8, 108u8, 111u8, 97u8, 100u8,
            58u8, 32u8,
        ]
    } else {
        vec![
            35u8, 32u8, 99u8, 108u8, 105u8, 101u8, 110u8, 116u8, 32u8, 108u8, 111u8, 97u8, 100u8,
            58u8, 32u8,
        ]
    };
    proof {
        if server {
            assert(v@ =~= server_load_label());
        } else {
            assert(v@ =~= client_load_label());
        }
    }
    push_bytes(&mut v, one_min);
    v.push(32u8);
    push_bytes(&mut v, five_min);
    v.push(10u8);
    proof {
        assert(v@ =~= (if server {
            server_load_label()
        } else {
            client_load_label()
        }) + one_min@ + seq![32u8] + five_min@ + seq![10u8]);
    }
    v
}

pub proof fn lemma_dec_repr_value(n: nat)
    ensures
        all_digits(dec_repr(n)),
        dec_repr(n).len() >= 1,
        dec_val(dec_repr(n)) == n,
    decreases n,
{
    if n < 10 {
        assert(dec_repr(n) =~= seq![(48 + n) as u8]);
        assert(dec_repr(n).drop_last() =~= Seq::<u8>::empty());
        assert(dec_repr(n).last() == (48 + n) as u8);
        assert(dec_val(Seq::<u8>::empty()) == 0);
        assert(dec_val(dec_repr(n)) == digit_val((48 + n) as u8));
    } else {
        lemma_dec_repr_value(n / 10);
        let s = dec_repr(n / 10);
        let d = (48 + n % 10) as u8;
        assert(s.push(d).drop_last() =~= s);
        assert(s.push(d).last() == d);
        assert(dec_val(s.push(d)) == dec_val(s) * 10 + digit_val(d));
        assert(n / 10 * 10 + n % 10 == n) by {
            vstd::arithmetic::div_mod::lemma_fundamental_div_mod(n as int, 10);
        }
        assert forall|i: int| 0 <= i < s.push(d).len() implies is_digit(s.push(d)[i]) by {
            if i < s.len() {
                assert(s.push(d)[i] == s[i]);
            } else {
                assert(s.push(d)[i] == d);
            }
        }
    }
}

/// Law: distinct candidate scales yield distinct artifact prefixes, so two
/// iterations never write to the same local file.
pub proof fn lemma_prefix_injective(a: usize, b: usize)
    requires
        a != b,
    ensures
        prefix_spec(a) != prefix_spec(b),
{
    lemma_dec_repr_value(a as nat);
    lemma_dec_repr_value(b as nat);
    if prefix_spec(a) == prefix_spec(b) {
        assert(prefix_spec(a).subrange(16, prefix_spec(a).len() as int) =~= dec_repr(a as nat));
        assert(prefix_spec(b).subrange(16, prefix_spec(b).len() as int) =~= dec_repr(b as nat));
        assert(dec_repr(a as nat) == dec_repr(b as nat));
        assert(dec_val(dec_repr(a as nat)) == dec_val(dec_repr(b as nat)));
        assert(false);
    }
}

} // verus!
