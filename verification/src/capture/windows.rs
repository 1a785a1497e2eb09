//! Windows (WASAPI) capture decisions: which application processes an
//! audio selection captures, when a selection has nothing left to
//! capture, and whether a device mix format is the 32-bit float the mixer
//! takes. The COM calls themselves run outside the library.

use vstd::prelude::*;
use crate::capture::linux::{last_segment, strs_view};
use crate::capture::CaptureError;
use crate::text::{chars_of, decimal, push_char, push_decimal, push_str, str_eq};

verus! {

/// The value of a run of decimal digits.
pub open spec fn digits_value(s: Seq<char>) -> int
    decreases s.len(),
{
    if s.len() == 0 {
        0
    } else {
        digits_value(s.drop_last()) * 10 + (s.last() as int - '0' as int)
    }
}

/// Every character is an ASCII digit.
pub open spec fn all_digits(s: Seq<char>) -> bool {
    forall|i: int| 0 <= i < s.len() ==> '0' <= #[trigger] s[i] <= '9'
}

/// `str::parse::<u32>`: an optional `+` followed by at least one digit,
/// with a value that fits in 32 bits.
pub open spec fn parse_u32_spec(s: Seq<char>) -> Option<u32> {
    let d = if s.len() > 0 && s[0] == '+' {
        s.skip(1)
    } else {
        s
    };
    if d.len() > 0 && all_digits(d) && digits_value(d) <= u32::MAX {
        Some(digits_value(d) as u32)
    } else {
        None
    }
}

proof fn lemma_digits_value_nonneg(s: Seq<char>)
    requires
        all_digits(s),
    ensures
        digits_value(s) >= 0,
    decreases s.len(),
{
    if s.len() > 0 {
        lemma_digits_value_nonneg(s.drop_last());
    }
}

/// Parses a process id the way `str::parse::<u32>` does.
pub fn parse_u32(s: &str) -> (r: Option<u32>)
    ensures
        r == parse_u32_spec(s@),
{
    let v = chars_of(s);
    let start: usize = if v.len() > 0 && v[0] == '+' { 1 } else { 0 };
    let ghost d = if s@.len() > 0 && s@[0] == '+' {
        s@.skip(1)
    } else {
        s@
    };
    assert(d =~= v@.skip(start as int));
    if v.len() == start {
        return None;
    }
    let mut acc: u64 = 0;
    let mut i: usize = start;
    while i < v.len()
        invariant
            v@ == s@,
            start <= i <= v.len(),
            start == (if s@.len() > 0 && s@[0] == '+' { 1usize } else { 0usize }),
            d == v@.skip(start as int),
            d == (if s@.len() > 0 && s@[0] == '+' {
                s@.skip(1)
            } else {
                s@
            }),
            all_digits(v@.subrange(start as int, i as int)),
            acc as int == digits_value(v@.subrange(start as int, i as int)),
            acc <= u32::MAX,
        decreases v.len() - i,
    {
        let c = v[i];
        proof {
            assert(v@.subrange(start as int, i + 1).drop_last() =~= v@.subrange(start as int, i as int));
            assert(v@.subrange(start as int, i + 1).last() == c);
        }
        if c < '0' || c > '9' {
            assert(d[i - start] == c);
            return None;
        }
        proof {
            assert forall|k: int| 0 <= k < v@.subrange(start as int, i + 1).len() implies '0'
                <= #[trigger] v@.subrange(start as int, i + 1)[k] <= '9' by {
                if k < i - start {
                    assert(v@.subrange(start as int, i + 1)[k] == v@.subrange(start as int, i as int)[k]);
                }
            }
        }
        let digit: u64 = (c as u32 - '0' as u32) as u64;
        acc = acc * 10 + digit;
        if acc > 0xffff_ffff {
            proof {
                assert(digits_value(v@.subrange(start as int, i + 1)) > u32::MAX);
                assert(d.take((i + 1 - start) as int) =~= v@.subrange(start as int, i + 1));
                lemma_prefix_value_bound(d, (i + 1 - start) as int);
            }
            return None;
        }
        i = i + 1;
    }
    assert(v@.subrange(start as int, v.len() as int) =~= d);
    Some(acc as u32)
}

/// A number with more digits is at least as large as its prefix.
proof fn lemma_prefix_value_bound(d: Seq<char>, n: int)
    requires
        0 <= n <= d.len(),
        all_digits(d.take(n)),
    ensures
        all_digits(d) ==> digits_value(d.take(n)) <= digits_value(d),
    decreases d.len() - n,
{
    if all_digits(d) && n < d.len() {
        lemma_prefix_value_bound(d, n + 1);
        assert(d.take(n + 1).drop_last() =~= d.take(n));
        lemma_digits_value_nonneg(d.take(n));
    }
    if n == d.len() {
        assert(d.take(n) =~= d);
    }
}

/// The process ids an application selection names: in "apps" mode, the
/// text after each id's last `:` that parses as a `u32`, in order;
/// nothing in any other mode.
pub open spec fn selected_pids(mode: Seq<char>, apps: Seq<Seq<char>>) -> Seq<u32>
    decreases apps.len(),
{
    if mode != "apps"@ || apps.len() == 0 {
        Seq::empty()
    } else {
        selected_pids(mode, apps.drop_last()) + match parse_u32_spec(last_segment(apps.last())) {
            Some(p) => seq![p],
            None => Seq::empty(),
        }
    }
}

/// The process ids to capture for an audio selection.
pub fn app_pids(mode: &str, apps: &Vec<String>) -> (r: Vec<u32>)
    ensures
        r@ == selected_pids(mode@, strs_view(apps@)),
{
    let mut out: Vec<u32> = Vec::new();
    if !str_eq(mode, "apps") {
        return out;
    }
    let ghost names = strs_view(apps@);
    let mut i: usize = 0;
    while i < apps.len()
        invariant
            i <= apps.len(),
            mode@ == "apps"@,
            names == strs_view(apps@),
            out@ == selected_pids(mode@, names.take(i as int)),
        decreases apps.len() - i,
    {
        proof {
            assert(names.take(i + 1).drop_last() =~= names.take(i as int));
            assert(names.take(i + 1).last() == apps@[i as int]@);
        }
        let node = crate::capture::linux::last_segment_of(apps[i].as_str());
        let ghost before = out@;
        match parse_u32(node.as_str()) {
            Some(p) => {
                out.push(p);
                assert(out@ =~= before + seq![p]);
            },
            None => {
                assert(out@ =~= before + Seq::<u32>::empty());
            },
        }
        i = i + 1;
    }
    assert(names.take(apps.len() as int) =~= names);
    out
}

/// The message logged and shown for a selected process that has exited.
pub fn stale_app_message(pid: u32) -> (r: String)
    ensures
        r@ == "audio app (pid:"@ + decimal(pid as nat) + ") is no longer running; reselect it"@,
{
    let mut s = String::from_str("audio app (pid:");
    push_decimal(&mut s, pid as u64);
    push_str(&mut s, ") is no longer running; reselect it");
    s
}

/// Refuses a selection with nothing to capture: not the system mix, no
/// microphone, and none of the selected processes still running.
pub fn check_sources(mode: &str, mic_enabled: bool, live_pids: &Vec<u32>) -> (r: Result<
    (),
    CaptureError,
>)
    ensures
        (mode@ != "system"@ && !mic_enabled && live_pids.len() == 0) ==> (r matches Err(
            CaptureError::Failed(m),
        ) && m@ == "no audio source selected (selected apps are no longer running?)"@),
        !(mode@ != "system"@ && !mic_enabled && live_pids.len() == 0) ==> r is Ok,
{
    if !str_eq(mode, "system") && !mic_enabled && live_pids.len() == 0 {
        return Err(
            CaptureError::Failed(
                String::from_str("no audio source selected (selected apps are no longer running?)"),
            ),
        );
    }
    Ok(())
}

/// The fields of a `WAVEFORMATEX` the capture reads; `subformat_data1` is
/// the first field of the extensible sub-format GUID (read only for the
/// extensible tag with a large enough extension).
#[derive(Clone, Copy, Debug, PartialEq, Eq, Structural)]
pub struct WaveFormat {
    pub tag: u16,
    pub channels: u16,
    pub rate: u32,
    pub bits: u16,
    pub cb_size: u16,
    pub subformat_data1: u32,
}

/// The IEEE float format tag.
pub const WAVE_FORMAT_IEEE_FLOAT: u16 = 3;
/// The extensible format tag.
pub const WAVE_FORMAT_EXTENSIBLE: u16 = 0xFFFE;

/// The format carries its sub-format GUID.
pub open spec fn has_subformat(f: WaveFormat) -> bool {
    f.tag == WAVE_FORMAT_EXTENSIBLE && f.cb_size >= 22
}

/// 32-bit float samples, plain or extensible (sub-format 3).
pub open spec fn is_float32(f: WaveFormat) -> bool {
    ||| f.tag == WAVE_FORMAT_IEEE_FLOAT && f.bits == 32
    ||| has_subformat(f) && f.bits == 32 && f.subformat_data1 == 3
}

/// Lower-case hexadecimal digit of `d < 16`.
pub open spec fn hex_digit(d: int) -> char {
    if d < 10 {
        ((d + 48) as u32) as char
    } else {
        ((d + 87) as u32) as char
    }
}

/// `{:#06x}` of a 16-bit value: `0x` and four lower-case hex digits.
pub open spec fn hex4(v: u16) -> Seq<char> {
    "0x"@ + seq![
        hex_digit((v / 4096) as int),
        hex_digit(((v / 256) % 16) as int),
        hex_digit(((v / 16) % 16) as int),
        hex_digit((v % 16) as int),
    ]
}

fn hex_char(d: u16) -> (c: char)
    requires
        d < 16,
    ensures
        c == hex_digit(d as int),
{
    let digits: [char; 16] = [
        '0', '1', '2', '3', '4', '5', '6', '7', '8', '9', 'a', 'b', 'c', 'd', 'e', 'f',
    ];
    let c = digits[d as usize];
    assert(c == hex_digit(d as int)) by {
        assert(digits@ =~= seq![
            '0', '1', '2', '3', '4', '5', '6', '7', '8', '9', 'a', 'b', 'c', 'd', 'e', 'f',
        ]);
    }
    c
}

/// The text of a mix format for the log, `null` when there is none.
pub open spec fn format_text(f: Option<WaveFormat>) -> Seq<char> {
    match f {
        None => "null"@,
        Some(f) => "tag="@ + hex4(f.tag) + " ch="@ + decimal(f.channels as nat) + " rate="@
            + decimal(f.rate as nat) + " bits="@ + decimal(f.bits as nat) + " cbSize="@ + decimal(
            f.cb_size as nat,
        ) + if has_subformat(f) {
            " subfmt_data1="@ + decimal(f.subformat_data1 as nat)
        } else {
            Seq::empty()
        },
    }
}

/// Describes a mix format for the log.
pub fn describe_format(fmt: Option<WaveFormat>) -> (r: String)
    ensures
        r@ == format_text(fmt),
{
    match fmt {
        None => String::from_str("null"),
        Some(f) => {
            let mut s = String::from_str("tag=0x");
            push_char(&mut s, hex_char(f.tag / 4096));
            push_char(&mut s, hex_char((f.tag / 256) % 16));
            push_char(&mut s, hex_char((f.tag / 16) % 16));
            push_char(&mut s, hex_char(f.tag % 16));
            push_str(&mut s, " ch=");
            push_decimal(&mut s, f.channels as u64);
            push_str(&mut s, " rate=");
            push_decimal(&mut s, f.rate as u64);
            push_str(&mut s, " bits=");
            push_decimal(&mut s, f.bits as u64);
            push_str(&mut s, " cbSize=");
            push_decimal(&mut s, f.cb_size as u64);
            if f.tag == WAVE_FORMAT_EXTENSIBLE && f.cb_size >= 22 {
                push_str(&mut s, " subfmt_data1=");
                push_decimal(&mut s, f.subformat_data1 as u64);
            }
            proof {
                reveal_strlit("tag=0x");
                reveal_strlit("tag=");
                reveal_strlit("0x");
                assert(s@ =~= format_text(fmt));
            }
            s
        },
    }
}

/// Accepts only 32-bit float mix formats: `None` is refused as a null
/// format, anything else as unsupported (`desc` names the device).
pub fn check_float_format(fmt: Option<WaveFormat>, desc: &str) -> (r: Result<(), CaptureError>)
    ensures
        fmt is None ==> (r matches Err(CaptureError::Failed(m)) && m@
            == "WASAPI mix format is null"@),
        fmt matches Some(f) ==> (is_float32(f) <==> r is Ok),
        fmt matches Some(f) && !is_float32(f) ==> (r matches Err(CaptureError::Failed(m)) && m@
            == "unsupported WASAPI mix format ("@ + desc@ + "): expected 32-bit float"@),
{
    match fmt {
        None => Err(CaptureError::Failed(String::from_str("WASAPI mix format is null"))),
        Some(f) => {
            if f.tag == WAVE_FORMAT_IEEE_FLOAT && f.bits == 32 {
                return Ok(());
            }
            if f.tag == WAVE_FORMAT_EXTENSIBLE && f.bits == 32 && f.cb_size >= 22
                && f.subformat_data1 == 3 {
                return Ok(());
            }
            let mut m = String::from_str("unsupported WASAPI mix format (");
            push_str(&mut m, desc);
            push_str(&mut m, "): expected 32-bit float");
            Err(CaptureError::Failed(m))
        },
    }
}

} // verus!
