//! Device identifiers of bus adapter channels. An adapter card has a serial
//! number made of two words and one or more channels; a channel is addressed
//! as `SERIAL:N`, where `SERIAL` is the high word's decimal digits followed by
//! the low word's, and `N` counts the card's channels from 1.
use vstd::prelude::*;
use vstd::string::StrSliceExecFns;
use crate::text::chars_of;

verus! {

/// The local number of channel `i`: channels are counted from 1, and a
/// channel whose card serial differs from the channel before starts again at 1.
pub open spec fn local_channel(serials: Seq<(u32, u32)>, i: int) -> nat
    decreases i,
{
    if i <= 0 {
        1
    } else if serials[i] == serials[i - 1] {
        local_channel(serials, i - 1) + 1
    } else {
        1
    }
}

pub open spec fn digit_char(d: nat) -> char {
    "0123456789"@[d as int]
}

/// The decimal digits of `n`.
pub open spec fn decimal(n: nat) -> Seq<char>
    decreases n,
{
    if n < 10 {
        seq![digit_char(n)]
    } else {
        decimal(n / 10).push(digit_char(n % 10))
    }
}

/// The identifier of a channel: serial words high then low, a colon, and the
/// local channel number.
pub open spec fn device_label(serial: (u32, u32), local: nat) -> Seq<char> {
    decimal(serial.0 as nat) + decimal(serial.1 as nat) + seq![':'] + decimal(local)
}

/// The identifier of channel `i` among `serials` (each as high word, low word).
pub open spec fn channel_label(serials: Seq<(u32, u32)>, i: int) -> Seq<char> {
    device_label(serials[i], local_channel(serials, i))
}

/// The last channel whose identifier is `id`, or -1.
pub open spec fn channel_of(serials: Seq<(u32, u32)>, id: Seq<char>, upto: int) -> int
    decreases upto,
{
    if upto <= 0 {
        -1
    } else if channel_label(serials, upto - 1) == id {
        upto - 1
    } else {
        channel_of(serials, id, upto - 1)
    }
}

fn push_decimal(out: &mut Vec<char>, n: usize)
    ensures
        final(out)@ == old(out)@ + decimal(n as nat),
    decreases n,
{
    if n >= 10 {
        push_decimal(out, n / 10);
    }
    let ghost before = out@;
    proof {
        reveal_strlit("0123456789");
    }
    out.push("0123456789".get_char(n % 10));
    proof {
        if n >= 10 {
            assert(out@ =~= old(out)@ + decimal((n / 10) as nat).push(digit_char((n % 10) as nat)));
        } else {
            assert(out@ =~= old(out)@ + seq![digit_char(n as nat)]);
        }
    }
}

/// The local number of every channel; see [`local_channel`].
pub fn local_channels(serials: &Vec<(u32, u32)>) -> (r: Vec<usize>)
    ensures
        r@.len() == serials@.len(),
        forall|i: int| 0 <= i < r@.len() ==> r@[i] == local_channel(serials@, i),
{
    let mut r: Vec<usize> = Vec::new();
    let mut i: usize = 0;
    while i < serials.len()
        invariant
            i <= serials@.len(),
            r@.len() == i,
            forall|k: int| 0 <= k < i ==> r@[k] == local_channel(serials@, k) && r@[k] <= k + 1,
        decreases serials@.len() - i,
    {
        let local: usize = if i > 0 && serials[i].0 == serials[i - 1].0 && serials[i].1 == serials[i
            - 1].1 {
            r[i - 1] + 1
        } else {
            1
        };
        r.push(local);
        i += 1;
    }
    r
}

/// The identifier of a channel, as characters.
pub fn device_label_chars(serial: (u32, u32), local: usize) -> (r: Vec<char>)
    ensures
        r@ == device_label(serial, local as nat),
{
    let mut r: Vec<char> = Vec::new();
    push_decimal(&mut r, serial.0 as usize);
    push_decimal(&mut r, serial.1 as usize);
    r.push(':');
    push_decimal(&mut r, local);
    assert(r@ =~= device_label(serial, local as nat));
    r
}

/// The channel whose identifier is `device_id`; where two channels share it,
/// the later one.
pub fn find_channel(serials: &Vec<(u32, u32)>, device_id: &str) -> (r: Option<usize>)
    ensures
        match r {
            Some(i) => channel_of(serials@, device_id@, serials@.len() as int) == i as int,
            None => channel_of(serials@, device_id@, serials@.len() as int) == -1,
        },
{
    let want = chars_of(device_id);
    let locals = local_channels(serials);
    let mut j: usize = serials.len();
    while j > 0
        invariant
            j <= serials@.len(),
            locals@.len() == serials@.len(),
            forall|i: int| 0 <= i < locals@.len() ==> locals@[i] == local_channel(serials@, i),
            want@ == device_id@,
            channel_of(serials@, device_id@, serials@.len() as int) == channel_of(
                serials@,
                device_id@,
                j as int,
            ),
        decreases j,
    {
        let label = device_label_chars(serials[j - 1], locals[j - 1]);
        if same_chars(&label, &want) {
            return Some(j - 1);
        }
        j -= 1;
    }
    None
}

fn same_chars(a: &Vec<char>, b: &Vec<char>) -> (r: bool)
    ensures
        r == (a@ == b@),
{
    if a.len() != b.len() {
        return false;
    }
    let mut k: usize = 0;
    while k < a.len()
        invariant
            a@.len() == b@.len(),
            k <= a@.len(),
            forall|q: int| 0 <= q < k ==> a@[q] == b@[q],
        decreases a@.len() - k,
    {
        if a[k] != b[k] {
            return false;
        }
        k += 1;
    }
    assert(a@ =~= b@);
    true
}

} // verus!
