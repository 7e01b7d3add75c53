//! macOS native TTS provider built on the `say` command.
//!
//! ```text
//! say -v Alex "Hello, world"                          # speak to speakers
//! say -v Alex -o out.aiff --data-format=LEI16@22050   # write raw PCM to file
//! say -v '?'                                          # list available voices
//! ```
//!
//! Running `say` happens outside this module; here are the decisions around
//! it: which voice and rate to use, the arguments, and how the output of
//! `say -v '?'` reads as a list of voices.

use vstd::prelude::*;
use crate::text::{
    find_char_in, index_of, last_whitespace, line_ranges, lines, rfind_whitespace_in, str_chars,
    string_from_range, trim, trim_range, decimal, push_decimal, push_str, string_from_utf8_lossy,
    utf8_lossy, lemma_decimal_digits, lemma_decimal_injective, is_digit, is_whitespace,
    lemma_trim_subrange, lemma_index_of, lemma_last_whitespace, opt_str_view, lemma_index_of_at,
    lemma_last_whitespace_at, lemma_trim_start_at, lemma_trim_end_at,
};
use crate::tts::{AudioFormat, Voice, VoiceView, opt_voice_view};

verus! {

/// Provider identifier.
pub const STR: &'static str = "macos";

/// Normal speaking rate in words per minute for the `say` command.
pub const DEFAULT_RATE_WPM: u32 = 175;

/// Slowest rate passed to `say --rate`.
pub const MIN_RATE_WPM: u32 = 1;

/// Fastest rate passed to `say --rate`.
pub const MAX_RATE_WPM: u32 = 700;

/// Sample rate used in the `--data-format` flag (Hz).
pub const SAMPLE_RATE: u32 = 22050;

/// Default voice when none is specified.
pub const DEFAULT_VOICE: &'static str = "Alex";

/// macOS native TTS provider.
///
/// Audio is produced as 16-bit little-endian signed PCM at 22 050 Hz.
#[derive(Debug, Clone)]
pub struct MacOsTts {
    pub default_voice: String,
}

/// The voice that a line of `say -v '?'` output describes:
///
/// ```text
/// Alex                en_US    # Most people recognize me by my voice.
/// ```
///
/// The name is what stands before the last whitespace-separated token (the
/// locale) in front of the first `#`, trimmed; the description is what
/// follows that `#`, trimmed. There is no voice when the line has no `#`,
/// when nothing but one token stands before it, or when the name is empty.
pub open spec fn voice_from_line(line: Seq<char>) -> Option<VoiceView> {
    match index_of(line, '#') {
        None => None,
        Some(h) => {
            let before = trim(line.take(h as int));
            match last_whitespace(before) {
                None => None,
                Some(k) => {
                    let name = trim(before.take(k as int));
                    let description = trim(line.skip((h + 1) as int));
                    if name.len() == 0 {
                        None
                    } else {
                        Some(
                            VoiceView {
                                id: name,
                                name: name,
                                description: if description.len() == 0 {
                                    None
                                } else {
                                    Some(description)
                                },
                                preview_url: None,
                            },
                        )
                    }
                },
            }
        },
    }
}

/// A voice read from a line has its name as id and no preview URL; its name
/// is not empty, holds no `#`, and neither starts nor ends with whitespace;
/// a description, when there is one, is not empty and neither starts nor
/// ends with whitespace.
pub proof fn lemma_voice_from_line_well_formed(line: Seq<char>)
    requires
        voice_from_line(line) is Some,
    ensures
        ({
            let v = voice_from_line(line)->0;
            &&& v.id == v.name
            &&& v.preview_url is None
            &&& v.name.len() > 0
            &&& !is_whitespace(v.name[0])
            &&& !is_whitespace(v.name.last())
            &&& forall|i: int| 0 <= i < v.name.len() ==> #[trigger] v.name[i] != '#'
            &&& v.description matches Some(d) ==> d.len() > 0 && !is_whitespace(d[0])
                && !is_whitespace(d.last())
        }),
{
    let h = index_of(line, '#')->0 as int;
    lemma_index_of(line, '#');
    let head = line.take(h);
    let (a, b) = lemma_trim_subrange(head);
    let before = trim(head);
    let k = last_whitespace(before)->0 as int;
    lemma_last_whitespace(before);
    let (na, nb) = lemma_trim_subrange(before.take(k));
    let name = trim(before.take(k));
    assert forall|i: int| 0 <= i < name.len() implies #[trigger] name[i] != '#' by {
        assert(name[i] == before.take(k)[na + i]);
        assert(before.take(k)[na + i] == before[na + i]);
        assert(before[na + i] == head[a + na + i]);
        assert(head[a + na + i] == line[a + na + i]);
    }
    let tail = line.skip(h + 1);
    let (da, db) = lemma_trim_subrange(tail);
    let description = trim(tail);
    if description.len() > 0 {
        assert(description[0] == tail[da]);
        assert(description.last() == tail[db - 1]);
    }
    assert(name[0] == before.take(k)[na]);
    assert(name.last() == before.take(k)[nb - 1]);
}

/// Every line made of a voice name, whitespace, a locale token, optional
/// whitespace, `#` and a description describes the voice of that name: its
/// id and name are the name itself, its description the trimmed description
/// (none when that is blank), and it has no preview URL. The name must not be
/// empty, hold no `#`, and neither start nor end with whitespace; it may hold
/// spaces and brackets, as in `Eddy (English (US))`. The locale holds no
/// whitespace and no `#`.
pub proof fn lemma_voice_line_complete(
    name: Seq<char>,
    sep: Seq<char>,
    locale: Seq<char>,
    pad: Seq<char>,
    description: Seq<char>,
)
    requires
        name.len() > 0,
        !is_whitespace(name[0]),
        !is_whitespace(name.last()),
        forall|i: int| 0 <= i < name.len() ==> #[trigger] name[i] != '#',
        sep.len() > 0,
        forall|i: int| 0 <= i < sep.len() ==> is_whitespace(#[trigger] sep[i]),
        locale.len() > 0,
        forall|i: int|
            0 <= i < locale.len() ==> !is_whitespace(#[trigger] locale[i]) && locale[i] != '#',
        forall|i: int| 0 <= i < pad.len() ==> is_whitespace(#[trigger] pad[i]),
    ensures
        voice_from_line(name + sep + locale + pad + seq!['#'] + description) == Some(
            (VoiceView {
                id: name,
                name: name,
                description: if trim(description).len() == 0 {
                    None
                } else {
                    Some(trim(description))
                },
                preview_url: None,
            }),
        ),
{
    let ln = name.len() as int;
    let ls = sep.len() as int;
    let ll = locale.len() as int;
    let head = name + sep + locale + pad;
    let line = head + seq!['#'] + description;
    let h = head.len() as int;
    assert(line =~= name + sep + locale + pad + seq!['#'] + description);
    assert(!is_whitespace('#'));
    assert forall|j: int| 0 <= j < h implies #[trigger] line[j] != '#' by {
        assert(line[j] == head[j]);
        if j < ln {
            assert(head[j] == name[j]);
        } else if j < ln + ls {
            assert(head[j] == sep[j - ln]);
        } else if j < ln + ls + ll {
            assert(head[j] == locale[j - ln - ls]);
        } else {
            assert(head[j] == pad[j - ln - ls - ll]);
        }
    }
    assert(line[h] == '#');
    lemma_index_of_at(line, '#', h);
    assert(line.take(h) =~= head);
    lemma_trim_start_at(head, 0);
    assert(head.skip(0) =~= head);
    let m = ln + ls + ll;
    assert forall|j: int| m <= j < head.len() implies is_whitespace(#[trigger] head[j]) by {
        assert(head[j] == pad[j - m]);
    }
    assert(head[m - 1] == locale[ll - 1]);
    lemma_trim_end_at(head, m);
    let before = head.take(m);
    assert(before =~= name + sep + locale);
    let k = ln + ls - 1;
    assert(before[k] == sep[ls - 1]);
    assert forall|j: int| k < j < before.len() implies !is_whitespace(#[trigger] before[j]) by {
        assert(before[j] == locale[j - ln - ls]);
    }
    lemma_last_whitespace_at(before, k);
    let x = before.take(k);
    assert(x =~= name + sep.take(ls - 1));
    assert(x[0] == name[0]);
    lemma_trim_start_at(x, 0);
    assert(x.skip(0) =~= x);
    assert forall|j: int| ln <= j < x.len() implies is_whitespace(#[trigger] x[j]) by {
        assert(x[j] == sep[j - ln]);
    }
    assert(x[ln - 1] == name.last());
    lemma_trim_end_at(x, ln);
    assert(x.take(ln) =~= name);
    assert(line.skip(h + 1) =~= description);
}

/// The voices that the lines `ls` describe, in order; lines that describe
/// no voice are skipped.
pub open spec fn voices_from_lines(ls: Seq<Seq<char>>) -> Seq<VoiceView>
    decreases ls.len(),
{
    if ls.len() == 0 {
        Seq::empty()
    } else {
        let earlier = voices_from_lines(ls.drop_last());
        match voice_from_line(ls.last()) {
            Some(v) => earlier.push(v),
            None => earlier,
        }
    }
}

/// Every voice of a listing is the voice of one of its lines, and a listing
/// has no more voices than lines.
pub proof fn lemma_listed_voices_come_from_lines(ls: Seq<Seq<char>>)
    ensures
        voices_from_lines(ls).len() <= ls.len(),
        forall|i: int|
            0 <= i < voices_from_lines(ls).len() ==> exists|j: int|
                0 <= j < ls.len() && voice_from_line(#[trigger] ls[j]) == Some(
                    #[trigger] voices_from_lines(ls)[i],
                ),
    decreases ls.len(),
{
    if ls.len() > 0 {
        let init = ls.drop_last();
        lemma_listed_voices_come_from_lines(init);
        let vs = voices_from_lines(ls);
        let earlier = voices_from_lines(init);
        assert forall|i: int| 0 <= i < vs.len() implies exists|j: int|
            0 <= j < ls.len() && voice_from_line(#[trigger] ls[j]) == Some(
                #[trigger] voices_from_lines(ls)[i],
            ) by {
            if i < earlier.len() {
                let j = choose|j: int| 0 <= j < init.len() && voice_from_line(#[trigger] init[j]) == Some(earlier[i]);
                assert(ls[j] == init[j]);
            } else {
                assert(ls[ls.len() - 1] == ls.last());
            }
        }
    }
}

pub open spec fn voices_view(vs: Seq<Voice>) -> Seq<VoiceView> {
    vs.map_values(|v: Voice| v@)
}

proof fn lemma_voices_from_lines_step(ls: Seq<Seq<char>>, i: int)
    requires
        0 <= i < ls.len(),
    ensures
        voices_from_lines(ls.take(i + 1)) == match voice_from_line(ls[i]) {
            Some(v) => voices_from_lines(ls.take(i)).push(v),
            None => voices_from_lines(ls.take(i)),
        },
{
    let t = ls.take(i + 1);
    assert(t.drop_last() =~= ls.take(i));
    assert(t.last() == ls[i]);
}

/// The voice described by `v[lo..hi]`.
fn parse_voice_range(v: &Vec<char>, lo: usize, hi: usize) -> (r: Option<Voice>)
    requires
        lo <= hi <= v@.len(),
    ensures
        opt_voice_view(r) == voice_from_line(v@.subrange(lo as int, hi as int)),
{
    let ghost line = v@.subrange(lo as int, hi as int);
    let h = match find_char_in(v, lo, hi, '#') {
        Some(h) => h,
        None => {
            return None;
        },
    };
    assert(line.take(h - lo) =~= v@.subrange(lo as int, h as int));
    let (a, b) = trim_range(v, lo, h);
    let ghost before = v@.subrange(a as int, b as int);
    let k = match rfind_whitespace_in(v, a, b) {
        Some(k) => k,
        None => {
            return None;
        },
    };
    assert(before.take(k - a) =~= v@.subrange(a as int, k as int));
    let (na, nb) = trim_range(v, a, k);
    if na == nb {
        return None;
    }
    assert(line.skip(h - lo + 1) =~= v@.subrange(h + 1, hi as int));
    let (da, db) = trim_range(v, h + 1, hi);
    let name = string_from_range(v, na, nb);
    let description = if da == db {
        None
    } else {
        Some(string_from_range(v, da, db))
    };
    Some(Voice { id: name.clone(), name, description, preview_url: None })
}

/// The `say --rate` for a speed already scaled to words per minute
/// (`None` when no speed was requested): the default rate, or the scaled
/// rate clamped to `1..=700`.
pub open spec fn rate_for(scaled_wpm: Option<u32>) -> u32 {
    match scaled_wpm {
        None => DEFAULT_RATE_WPM,
        Some(r) => if r < MIN_RATE_WPM {
            MIN_RATE_WPM
        } else if r > MAX_RATE_WPM {
            MAX_RATE_WPM
        } else {
            r
        },
    }
}

/// A scaled rate inside `MIN_RATE_WPM..=MAX_RATE_WPM` is passed to `say`
/// unchanged; one below is raised to the minimum, one above lowered to the
/// maximum.
pub proof fn lemma_rate_within_bounds_unchanged(scaled: u32)
    ensures
        MIN_RATE_WPM <= scaled <= MAX_RATE_WPM ==> rate_for(Some(scaled)) == scaled,
        scaled < MIN_RATE_WPM ==> rate_for(Some(scaled)) == MIN_RATE_WPM,
        MAX_RATE_WPM < scaled ==> rate_for(Some(scaled)) == MAX_RATE_WPM,
{
}

/// Two different scaled rates inside `MIN_RATE_WPM..=MAX_RATE_WPM` give
/// different `say --rate` values, the faster one the faster rate.
pub proof fn lemma_rate_strictly_monotone_within_bounds(slower: u32, faster: u32)
    requires
        MIN_RATE_WPM <= slower < faster <= MAX_RATE_WPM,
    ensures
        rate_for(Some(slower)) < rate_for(Some(faster)),
{
}

/// A faster requested speed never gives a slower `say --rate`.
pub proof fn lemma_rate_monotone(slower: u32, faster: u32)
    requires
        slower <= faster,
    ensures
        rate_for(Some(slower)) <= rate_for(Some(faster)),
{
}

/// The name of the temporary file that `say` writes for process `pid` at
/// `nanos` nanoseconds after the Unix epoch.
pub open spec fn temp_file_name_for(pid: u32, nanos: u128) -> Seq<char> {
    "moltis-say-"@ + decimal(pid as nat) + "-"@ + decimal(nanos as nat) + ".aiff"@
}

/// The `--data-format` flag: 16-bit little-endian integer samples at
/// [`SAMPLE_RATE`].
pub open spec fn data_format_flag() -> Seq<char> {
    "--data-format=LEI16@"@ + decimal(SAMPLE_RATE as nat)
}

/// The arguments of `say` that writes `text`, spoken by `voice` at `rate`,
/// to `out_path`.
pub open spec fn say_argument_list(
    voice: Seq<char>,
    rate: u32,
    out_path: Seq<char>,
    text: Seq<char>,
) -> Seq<Seq<char>> {
    seq!["-v"@, voice, "--rate"@, decimal(rate as nat), "-o"@, out_path, data_format_flag(), text]
}

pub open spec fn strings_view(v: Seq<String>) -> Seq<Seq<char>> {
    v.map_values(|s: String| s@)
}

/// The error reported when `say -v '?'` fails.
pub open spec fn voice_list_failure(stderr: Seq<u8>) -> Seq<char> {
    "`say -v '?'` failed: "@ + utf8_lossy(stderr)
}

/// The error reported when `say` fails to synthesize.
pub open spec fn synthesis_failure(stderr: Seq<u8>) -> Seq<char> {
    "`say` synthesis failed: "@ + utf8_lossy(stderr)
}

/// Two temporary file names are equal only for the same process and the
/// same timestamp: runs that differ in either never share an output file.
pub proof fn lemma_temp_file_names_distinct(pid1: u32, nanos1: u128, pid2: u32, nanos2: u128)
    requires
        temp_file_name_for(pid1, nanos1) == temp_file_name_for(pid2, nanos2),
    ensures
        pid1 == pid2,
        nanos1 == nanos2,
{
    reveal_strlit("moltis-say-");
    reveal_strlit("-");
    reveal_strlit(".aiff");
    let d1 = decimal(pid1 as nat);
    let d2 = decimal(pid2 as nat);
    let t1 = decimal(nanos1 as nat);
    let t2 = decimal(nanos2 as nat);
    lemma_decimal_digits(pid1 as nat);
    lemma_decimal_digits(pid2 as nat);
    let x1 = d1 + "-"@ + t1 + ".aiff"@;
    let x2 = d2 + "-"@ + t2 + ".aiff"@;
    let f1 = temp_file_name_for(pid1, nanos1);
    assert(f1.skip(11) =~= x1);
    assert(temp_file_name_for(pid2, nanos2).skip(11) =~= x2);
    assert(x1 == x2);
    assert(x1[d1.len() as int] == '-');
    assert(x2[d2.len() as int] == '-');
    if d1.len() < d2.len() {
        assert(x2[d1.len() as int] == d2[d1.len() as int]);
        assert(is_digit(d2[d1.len() as int]));
    }
    if d2.len() < d1.len() {
        assert(x1[d2.len() as int] == d1[d2.len() as int]);
        assert(is_digit(d1[d2.len() as int]));
    }
    assert(d1.len() == d2.len());
    assert(x1.take(d1.len() as int) =~= d1);
    assert(x2.take(d2.len() as int) =~= d2);
    lemma_decimal_injective(pid1 as nat, pid2 as nat);
    let y1 = x1.skip((d1.len() + 1) as int);
    let y2 = x2.skip((d2.len() + 1) as int);
    assert(y1 =~= t1 + ".aiff"@);
    assert(y2 =~= t2 + ".aiff"@);
    assert(y1.take(y1.len() - 5) =~= t1);
    assert(y2.take(y2.len() - 5) =~= t2);
    lemma_decimal_injective(nanos1 as nat, nanos2 as nat);
}

impl MacOsTts {
    /// Parse a single line of `say -v '?'` output.
    pub fn parse_voice_line(line: &str) -> (r: Option<Voice>)
        ensures
            opt_voice_view(r) == voice_from_line(line@),
    {
        let v = str_chars(line);
        assert(v@.subrange(0, v@.len() as int) =~= v@);
        parse_voice_range(&v, 0, v.len())
    }

    /// The voices listed in the output of `say -v '?'`, one per line, in
    /// order; lines that describe no voice are skipped.
    pub fn parse_voices(output: &str) -> (r: Vec<Voice>)
        ensures
            voices_view(r@) == voices_from_lines(lines(output@)),
    {
        let v = str_chars(output);
        let ranges = line_ranges(&v);
        let ghost ls = lines(v@);
        let mut voices: Vec<Voice> = Vec::new();
        let mut i: usize = 0;
        assert(ls.take(0) =~= Seq::<Seq<char>>::empty());
        assert(voices_view(voices@) =~= Seq::<VoiceView>::empty());
        while i < ranges.len()
            invariant
                ls == lines(v@),
                i <= ranges@.len() == ls.len(),
                forall|j: int|
                    0 <= j < ranges@.len() ==> {
                        &&& (#[trigger] ranges@[j]).0 <= ranges@[j].1 <= v@.len()
                        &&& v@.subrange(ranges@[j].0 as int, ranges@[j].1 as int) == ls[j]
                    },
                voices_view(voices@) == voices_from_lines(ls.take(i as int)),
            decreases ranges@.len() - i,
        {
            let (lo, hi) = ranges[i];
            let parsed = parse_voice_range(&v, lo, hi);
            proof {
                lemma_voices_from_lines_step(ls, i as int);
            }
            let ghost before = voices@;
            match parsed {
                Some(voice) => {
                    voices.push(voice);
                    assert(voices_view(voices@) =~= voices_view(before).push(voice@));
                },
                None => {},
            }
            i = i + 1;
        }
        assert(ls.take(ls.len() as int) =~= ls);
        voices
    }

    /// Create a new macOS TTS provider; `default_voice` overrides the
    /// fallback voice (`"Alex"`).
    pub fn new(default_voice: Option<String>) -> (r: Self)
        ensures
            r.default_voice@ == match default_voice {
                Some(v) => v@,
                None => DEFAULT_VOICE@,
            },
    {
        let voice = match default_voice {
            Some(v) => v,
            None => DEFAULT_VOICE.to_string(),
        };
        MacOsTts { default_voice: voice }
    }

    /// Provider identifier.
    pub fn id(&self) -> (r: &'static str)
        ensures
            r@ == STR@,
    {
        STR
    }

    /// Human-readable provider name.
    pub fn name(&self) -> (r: &'static str)
        ensures
            r@ == "macOS"@,
    {
        "macOS"
    }

    /// `say` takes plain text, not SSML.
    pub fn supports_ssml(&self) -> (r: bool)
        ensures
            !r,
    {
        false
    }

    /// The voice to speak with: the requested one, else the default voice.
    pub open spec fn voice_for(&self, voice_id: Option<Seq<char>>) -> Seq<char> {
        match voice_id {
            Some(v) => v,
            None => self.default_voice@,
        }
    }

    /// The `say --rate` for a speed already scaled to words per minute; see
    /// [`rate_for`].
    pub fn rate_from_scaled_wpm(scaled_wpm: Option<u32>) -> (r: u32)
        ensures
            r == rate_for(scaled_wpm),
            MIN_RATE_WPM <= r <= MAX_RATE_WPM,
            scaled_wpm is None ==> r == DEFAULT_RATE_WPM,
            scaled_wpm matches Some(x) ==> (MIN_RATE_WPM <= x <= MAX_RATE_WPM ==> r == x) && (x
                < MIN_RATE_WPM ==> r == MIN_RATE_WPM) && (MAX_RATE_WPM < x ==> r == MAX_RATE_WPM),
    {
        match scaled_wpm {
            None => DEFAULT_RATE_WPM,
            Some(r) => if r < MIN_RATE_WPM {
                MIN_RATE_WPM
            } else if r > MAX_RATE_WPM {
                MAX_RATE_WPM
            } else {
                r
            },
        }
    }

    /// The name of the temporary output file for process `pid` at `nanos`
    /// nanoseconds after the Unix epoch: `moltis-say-{pid}-{nanos}.aiff`.
    pub fn temp_file_name(pid: u32, nanos: u128) -> (r: String)
        ensures
            r@ == temp_file_name_for(pid, nanos),
    {
        let mut s = String::new();
        push_str(&mut s, "moltis-say-");
        push_decimal(&mut s, pid as u128);
        push_str(&mut s, "-");
        push_decimal(&mut s, nanos);
        push_str(&mut s, ".aiff");
        s
    }

    /// The arguments of `say` for a synthesis of `text` into `out_path`:
    /// the requested voice (else the default voice), the rate for the scaled
    /// speed, and 16-bit PCM output at [`SAMPLE_RATE`].
    pub fn say_arguments(
        &self,
        voice_id: Option<&str>,
        scaled_wpm: Option<u32>,
        out_path: &str,
        text: &str,
    ) -> (r: Vec<String>)
        ensures
            strings_view(r@) == say_argument_list(
                self.voice_for(opt_str_view(voice_id)),
                rate_for(scaled_wpm),
                out_path@,
                text@,
            ),
            r@.len() == 8,
            voice_id matches Some(v) ==> r@[1]@ == v@,
            scaled_wpm matches Some(x) ==> (MIN_RATE_WPM <= x <= MAX_RATE_WPM ==> r@[3]@
                == decimal(x as nat)),
    {
        let voice = match voice_id {
            Some(v) => v.to_string(),
            None => self.default_voice.clone(),
        };
        let rate = Self::rate_from_scaled_wpm(scaled_wpm);
        let mut rate_arg = String::new();
        push_decimal(&mut rate_arg, rate as u128);
        let mut format_arg = String::new();
        push_str(&mut format_arg, "--data-format=LEI16@");
        push_decimal(&mut format_arg, SAMPLE_RATE as u128);
        let mut args: Vec<String> = Vec::new();
        args.push("-v".to_string());
        args.push(voice);
        args.push("--rate".to_string());
        args.push(rate_arg);
        args.push("-o".to_string());
        args.push(out_path.to_string());
        args.push(format_arg);
        args.push(text.to_string());
        assert(strings_view(args@) =~= say_argument_list(
            self.voice_for(opt_str_view(voice_id)),
            rate_for(scaled_wpm),
            out_path@,
            text@,
        ));
        assert(strings_view(args@)[1] == args@[1]@);
        assert(strings_view(args@)[3] == args@[3]@);
        args
    }

    /// The arguments of `say` that lists the installed voices: `-v ?`.
    pub fn voice_list_arguments() -> (r: Vec<String>)
        ensures
            strings_view(r@) == seq!["-v"@, "?"@],
    {
        let mut args: Vec<String> = Vec::new();
        args.push("-v".to_string());
        args.push("?".to_string());
        assert(strings_view(args@) =~= seq!["-v"@, "?"@]);
        args
    }

    /// The voices listed by a run of `say -v '?'` that exited with
    /// `success` and wrote `stdout` and `stderr`: the voices of the output's
    /// lines when it succeeded, else the failure with its error output.
    pub fn voices_from_output(success: bool, stdout: &[u8], stderr: &[u8]) -> (r: Result<
        Vec<Voice>,
        String,
    >)
        ensures
            success ==> (r matches Ok(vs) && voices_view(vs@) == voices_from_lines(
                lines(utf8_lossy(stdout@)),
            )),
            !success ==> (r matches Err(e) && e@ == voice_list_failure(stderr@)),
    {
        if !success {
            let err = string_from_utf8_lossy(stderr);
            let mut msg = String::new();
            push_str(&mut msg, "`say -v '?'` failed: ");
            push_str(&mut msg, err.as_str());
            return Err(msg);
        }
        let out = string_from_utf8_lossy(stdout);
        Ok(Self::parse_voices(out.as_str()))
    }

    /// Whether a run of `say` that exited with `success` and wrote `stderr`
    /// produced audio; the failure otherwise.
    pub fn synthesis_status(success: bool, stderr: &[u8]) -> (r: Result<(), String>)
        ensures
            success <==> r is Ok,
            r matches Err(e) ==> e@ == synthesis_failure(stderr@),
    {
        if success {
            Ok(())
        } else {
            let err = string_from_utf8_lossy(stderr);
            let mut msg = String::new();
            push_str(&mut msg, "`say` synthesis failed: ");
            push_str(&mut msg, err.as_str());
            Err(msg)
        }
    }

    /// The format of the audio returned for a request of `requested`:
    /// always PCM in an AIFF container, whatever was asked for; callers
    /// transcode when they need another format.
    pub fn output_format(requested: AudioFormat) -> (r: AudioFormat)
        ensures
            r == AudioFormat::Pcm,
    {
        match requested {
            AudioFormat::Pcm => AudioFormat::Pcm,
            AudioFormat::Mp3 | AudioFormat::Opus | AudioFormat::Aac | AudioFormat::Webm => {
                AudioFormat::Pcm
            },
        }
    }
}

impl Default for MacOsTts {
    fn default() -> (r: Self)
        ensures
            r.default_voice@ == DEFAULT_VOICE@,
    {
        Self::new(None)
    }
}

} // verus!
