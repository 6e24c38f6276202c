//! User preset snapshots: their contents, their file names, and where they live.
use vstd::prelude::*;
use crate::params::{knob_row, ParamValues};
use crate::text::{
    ascii_lower, char_is_control, char_to_ascii_lowercase, chars_to_string, decimal, is_control,
    lemma_trim_shape, push_decimal, push_str_chars, str_to_chars, trim, trim_chars,
};

verus! {

broadcast use vstd::string::group_string_axioms;

/// The parameter values that a user preset file holds. `f32` values are held
/// as their IEEE-754 bit patterns.
#[derive(Debug, Clone, Copy, PartialEq, Eq, Structural)]
pub struct PluginParamsSnapshot {
    pub room: i32,
    pub reverb_mix: u32,
    pub delay_mix: u32,
    pub clip_soft: i32,
    pub enable_amplp: bool,
    pub enable_ampmod: bool,
    pub reverb_size: u32,
    pub reverb_feedback: u32,
    pub enable_revlp: bool,
    pub delay_time: u32,
    pub delay_feedback: u32,
    pub enable_dellp: bool,
    pub haas_time: u32,
    pub seed: i32,
    pub input_gain_db: u32,
    pub output_gain_db: u32,
}

/// The snapshot of the current parameter values.
pub open spec fn snapshot_of(p: ParamValues) -> PluginParamsSnapshot {
    PluginParamsSnapshot {
        room: p.room,
        reverb_mix: p.reverb_mix,
        delay_mix: p.delay_mix,
        clip_soft: p.clip_soft,
        enable_amplp: p.enable_amplp,
        enable_ampmod: p.enable_ampmod,
        reverb_size: p.reverb_size,
        reverb_feedback: p.reverb_feedback,
        enable_revlp: p.enable_revlp,
        delay_time: p.delay_time,
        delay_feedback: p.delay_feedback,
        enable_dellp: p.enable_dellp,
        haas_time: p.haas_time,
        seed: p.seed,
        input_gain_db: p.input_gain_db,
        output_gain_db: p.output_gain_db,
    }
}

impl PluginParamsSnapshot {
    /// The knob row that this snapshot stands for.
    pub open spec fn knobs(self) -> Seq<u32> {
        knob_row(
            self.enable_amplp,
            self.enable_ampmod,
            self.reverb_size,
            self.reverb_feedback,
            self.enable_revlp,
            self.delay_time,
            self.delay_feedback,
            self.enable_dellp,
            self.haas_time,
        )
    }

    /// Takes a snapshot of the current parameter values.
    pub fn from_params(params: &ParamValues) -> (r: Self)
        ensures
            r == snapshot_of(*params),
    {
        PluginParamsSnapshot {
            room: params.room,
            reverb_mix: params.reverb_mix,
            delay_mix: params.delay_mix,
            clip_soft: params.clip_soft,
            enable_amplp: params.enable_amplp,
            enable_ampmod: params.enable_ampmod,
            reverb_size: params.reverb_size,
            reverb_feedback: params.reverb_feedback,
            enable_revlp: params.enable_revlp,
            delay_time: params.delay_time,
            delay_feedback: params.delay_feedback,
            enable_dellp: params.enable_dellp,
            haas_time: params.haas_time,
            seed: params.seed,
            input_gain_db: params.input_gain_db,
            output_gain_db: params.output_gain_db,
        }
    }
}

/// Why a preset could not be saved, loaded or listed. The I/O and JSON
/// variants carry the message of the underlying error.
#[derive(Debug, Clone)]
pub enum PresetIoError {
    MissingDesktop,
    InvalidFileName,
    Io(String),
    Json(String),
}

/// The text shown for an error.
pub open spec fn error_message(e: PresetIoError) -> Seq<char> {
    match e {
        PresetIoError::MissingDesktop => "Could not determine Desktop path (USERPROFILE/HOME not set)"@,
        PresetIoError::InvalidFileName => "Preset file name is empty or invalid"@,
        PresetIoError::Io(m) => "I/O error: "@ + m@,
        PresetIoError::Json(m) => "JSON parse/serialize error: "@ + m@,
    }
}

impl PresetIoError {
    /// The text shown for this error.
    pub fn message(&self) -> (r: String)
        ensures
            r@ == error_message(*self),
    {
        match self {
            PresetIoError::MissingDesktop => {
                String::from_str("Could not determine Desktop path (USERPROFILE/HOME not set)")
            },
            PresetIoError::InvalidFileName => String::from_str("Preset file name is empty or invalid"),
            PresetIoError::Io(m) => {
                let mut r = String::from_str("I/O error: ");
                r.append(m.as_str());
                r
            },
            PresetIoError::Json(m) => {
                let mut r = String::from_str("JSON parse/serialize error: ");
                r.append(m.as_str());
                r
            },
        }
    }
}

/// Characters that file systems refuse in a file name.
pub open spec fn is_reserved_char(c: char) -> bool {
    c == '<' || c == '>' || c == ':' || c == '"' || c == '/' || c == '\\' || c == '|' || c
        == '?' || c == '*'
}

/// A reserved or control character becomes `_`; any other stays.
pub open spec fn sanitized_char(c: char) -> char {
    if is_reserved_char(c) || is_control(c) {
        '_'
    } else {
        c
    }
}

/// The file-name-safe form of a preset name: reserved and control characters
/// replaced by `_`, then surrounding whitespace trimmed, then surrounding dots.
pub open spec fn sanitized(name: Seq<char>) -> Seq<char> {
    trim(trim(name.map_values(|c: char| sanitized_char(c)), false), true)
}

fn sanitize_char(c: char) -> (r: char)
    ensures
        r == sanitized_char(c),
{
    if c == '<' || c == '>' || c == ':' || c == '"' || c == '/' || c == '\\' || c == '|' || c
        == '?' || c == '*' || char_is_control(c) {
        '_'
    } else {
        c
    }
}

fn sanitize_chars(name: &str) -> (r: Vec<char>)
    ensures
        r@ == sanitized(name@),
{
    let cs = str_to_chars(name);
    let mut out: Vec<char> = Vec::new();
    let mut i: usize = 0;
    while i < cs.len()
        invariant
            i <= cs@.len(),
            out@ == cs@.take(i as int).map_values(|c: char| sanitized_char(c)),
        decreases cs.len() - i,
    {
        out.push(sanitize_char(cs[i]));
        assert(cs@.take(i + 1) == cs@.take(i as int).push(cs@[i as int]));
        assert(out@ =~= cs@.take(i + 1).map_values(|c: char| sanitized_char(c)));
        i = i + 1;
    }
    assert(cs@.take(cs@.len() as int) == cs@);
    let trimmed = trim_chars(&out, false);
    trim_chars(&trimmed, true)
}

/// The file-name-safe form of a preset name.
pub fn sanitize_name(name: &str) -> (r: String)
    ensures
        r@ == sanitized(name@),
{
    chars_to_string(&sanitize_chars(name))
}

/// The file name, relative to the preset folder, under which a preset of the
/// given name is stored.
pub open spec fn snapshot_file_name(name: Seq<char>) -> Seq<char> {
    sanitized(name) + ".json"@
}

/// The path, relative to the preset folder, of the file for a preset name:
/// its safe form with `.json` appended. A name with nothing left once made
/// safe is refused.
pub fn snapshot_path(name: &str) -> (r: Result<String, PresetIoError>)
    ensures
        sanitized(name@).len() == 0 <==> r is Err,
        r matches Err(e) ==> e is InvalidFileName,
        r matches Ok(path) ==> path@ == snapshot_file_name(name@),
{
    let mut safe = sanitize_chars(name);
    if safe.len() == 0 {
        return Err(PresetIoError::InvalidFileName);
    }
    push_str_chars(&mut safe, ".json");
    Ok(chars_to_string(&safe))
}

/// The name proposed for a preset saved at the given Unix time.
pub open spec fn snapshot_name_at(secs: u64) -> Seq<char> {
    "preset-"@ + decimal(secs as nat)
}

/// Seconds since the Unix epoch by the system clock, `None` when the clock
/// stands before the epoch.
///
/// Trusted: `SystemTime::now` and `SystemTime::duration_since`. Nothing is
/// stated of the value, which depends on the clock.
#[verifier::external_body]
fn unix_time_secs() -> Option<u64> {
    match std::time::SystemTime::now().duration_since(std::time::UNIX_EPOCH) {
        Ok(d) => Some(d.as_secs()),
        Err(_) => None,
    }
}

/// The name proposed for a preset saved at the given Unix time.
pub fn snapshot_name_for_time(secs: u64) -> (r: String)
    ensures
        r@ == snapshot_name_at(secs),
{
    let mut out = str_to_chars("preset-");
    push_decimal(&mut out, secs);
    chars_to_string(&out)
}

/// The Unix time that names a preset saved when the clock read `clock`: the
/// reading, or `0` when the clock stood before the epoch.
pub open spec fn clock_secs(clock: Option<u64>) -> u64 {
    match clock {
        Some(s) => s,
        None => 0,
    }
}

/// The name proposed for a preset saved when the clock read `clock` (`None`
/// when it stood before the epoch): `preset-` and the seconds, or `preset-0`.
pub fn snapshot_name_for_clock(clock: Option<u64>) -> (r: String)
    ensures
        r@ == snapshot_name_at(clock_secs(clock)),
{
    let secs = match clock {
        Some(s) => s,
        None => 0,
    };
    snapshot_name_for_time(secs)
}

/// The name proposed for a preset saved now: `preset-` and the Unix time in
/// seconds, or `preset-0` when the clock stands before the epoch.
pub fn default_snapshot_name() -> (r: String)
    ensures
        exists|clock: Option<u64>| r@ == snapshot_name_at(clock_secs(clock)),
{
    let clock = unix_time_secs();
    snapshot_name_for_clock(clock)
}

/// Where the preset folder lies.
#[derive(Debug, Clone, PartialEq, Eq)]
pub enum PresetRootSource<P> {
    /// The folder named by the override environment variable, used as it is.
    Override(P),
    /// The preset folder inside the `Desktop` folder of this home directory.
    DesktopOf(P),
}

/// Chooses the preset folder: the override when there is one, else the
/// Desktop under the user profile directory, else under the home directory.
pub fn choose_preset_root<P>(override_dir: Option<P>, user_profile: Option<P>, home: Option<P>) -> (r:
    Result<PresetRootSource<P>, PresetIoError>)
    ensures
        override_dir matches Some(d) ==> r == Ok::<PresetRootSource<P>, PresetIoError>(
            PresetRootSource::Override(d),
        ),
        override_dir is None && user_profile is Some ==> r == Ok::<
            PresetRootSource<P>,
            PresetIoError,
        >(PresetRootSource::DesktopOf(user_profile->0)),
        override_dir is None && user_profile is None && home is Some ==> r == Ok::<
            PresetRootSource<P>,
            PresetIoError,
        >(PresetRootSource::DesktopOf(home->0)),
        override_dir is None && user_profile is None && home is None ==> r matches Err(
            PresetIoError::MissingDesktop,
        ),
{
    match override_dir {
        Some(d) => Ok(PresetRootSource::Override(d)),
        None => match user_profile {
            Some(u) => Ok(PresetRootSource::DesktopOf(u)),
            None => match home {
                Some(h) => Ok(PresetRootSource::DesktopOf(h)),
                None => Err(PresetIoError::MissingDesktop),
            },
        },
    }
}

/// Whether a file extension marks a preset file: `json` in any ASCII case.
pub open spec fn is_snapshot_extension(ext: Seq<char>) -> bool {
    &&& ext.len() == 4
    &&& ascii_lower(ext[0]) == 'j'
    &&& ascii_lower(ext[1]) == 's'
    &&& ascii_lower(ext[2]) == 'o'
    &&& ascii_lower(ext[3]) == 'n'
}

/// Whether a file with this extension (if it has one) is a preset file.
pub fn is_snapshot_file(ext: Option<&str>) -> (r: bool)
    ensures
        r == (ext matches Some(e) && is_snapshot_extension(e@)),
{
    match ext {
        None => false,
        Some(e) => {
            let cs = str_to_chars(e);
            cs.len() == 4 && char_to_ascii_lowercase(cs[0]) == 'j' && char_to_ascii_lowercase(
                cs[1],
            ) == 's' && char_to_ascii_lowercase(cs[2]) == 'o' && char_to_ascii_lowercase(cs[3])
                == 'n'
        },
    }
}

/// A sanitized preset name holds no reserved or control character, and
/// neither starts nor ends with a dot.
pub proof fn law_sanitized_name_is_safe(name: Seq<char>)
    ensures
        forall|i: int|
            0 <= i < sanitized(name).len() ==> !is_reserved_char(#[trigger] sanitized(name)[i])
                && !is_control(sanitized(name)[i]),
        sanitized(name).len() > 0 ==> sanitized(name)[0] != '.' && sanitized(name).last() != '.',
{
    let mapped = name.map_values(|c: char| sanitized_char(c));
    let spaced = trim(mapped, false);
    lemma_trim_shape(mapped, false);
    lemma_trim_shape(spaced, true);
    let (a1, b1) = choose|a: int, b: int| 0 <= a <= b <= mapped.len() && spaced == mapped.subrange(a, b);
    let (a2, b2) = choose|a: int, b: int| 0 <= a <= b <= spaced.len() && sanitized(name) == spaced.subrange(a, b);
    assert forall|i: int| 0 <= i < sanitized(name).len() implies !is_reserved_char(
        #[trigger] sanitized(name)[i],
    ) && !is_control(sanitized(name)[i]) by {
        assert(sanitized(name)[i] == mapped[a1 + a2 + i]);
    }
}

/// A preset file found in the preset folder: its path, and the parts of that
/// path below the folder, each as the bytes the platform encodes it with.
pub struct ListedFile<P> {
    pub path: P,
    pub parts: Vec<Vec<u8>>,
}

/// Lexicographic order of byte strings.
pub open spec fn bytes_le(a: Seq<u8>, b: Seq<u8>) -> bool
    decreases a.len(),
{
    if a.len() == 0 {
        true
    } else if b.len() == 0 {
        false
    } else if a[0] != b[0] {
        a[0] < b[0]
    } else {
        bytes_le(a.drop_first(), b.drop_first())
    }
}

/// Lexicographic order of paths part by part, each part compared as bytes:
/// the order of `PathBuf` for paths below one folder.
pub open spec fn parts_le(a: Seq<Seq<u8>>, b: Seq<Seq<u8>>) -> bool
    decreases a.len(),
{
    if a.len() == 0 {
        true
    } else if b.len() == 0 {
        false
    } else if a[0] != b[0] {
        bytes_le(a[0], b[0])
    } else {
        parts_le(a.drop_first(), b.drop_first())
    }
}

/// The parts of a listed file, as byte strings.
pub open spec fn file_key<P>(f: ListedFile<P>) -> Seq<Seq<u8>> {
    f.parts@.map_values(|p: Vec<u8>| p@)
}

/// `out` is `input` sorted stably by path, entry `j` of `out` being entry
/// `pos[j]` of `input`.
pub open spec fn file_sort_of<P>(out: Seq<ListedFile<P>>, input: Seq<ListedFile<P>>, pos: Seq<int>) -> bool {
    &&& out.len() == input.len()
    &&& pos.len() == out.len()
    &&& forall|j: int| 0 <= j < out.len() ==> 0 <= #[trigger] pos[j] < input.len()
    &&& forall|j: int| 0 <= j < out.len() ==> #[trigger] out[j] == input[pos[j]]
    &&& forall|j1: int, j2: int| 0 <= j1 < j2 < out.len() ==> #[trigger] pos[j1] != #[trigger] pos[j2]
    &&& forall|j1: int, j2: int|
        0 <= j1 < j2 < out.len() ==> parts_le(file_key(#[trigger] out[j1]), file_key(#[trigger] out[j2]))
    &&& forall|j1: int, j2: int|
        0 <= j1 < j2 < out.len() && file_key(#[trigger] out[j1]) == file_key(#[trigger] out[j2])
            ==> pos[j1] < pos[j2]
}

proof fn lemma_bytes_le_order(a: Seq<u8>, b: Seq<u8>, c: Seq<u8>)
    ensures
        bytes_le(a, a),
        bytes_le(a, b) || bytes_le(b, a),
        bytes_le(a, b) && bytes_le(b, a) ==> a == b,
        bytes_le(a, b) && bytes_le(b, c) ==> bytes_le(a, c),
    decreases a.len(),
{
    if a.len() > 0 {
        lemma_bytes_le_order(a.drop_first(), a.drop_first(), a.drop_first());
        if b.len() > 0 {
            if c.len() > 0 {
                lemma_bytes_le_order(a.drop_first(), b.drop_first(), c.drop_first());
            } else {
                lemma_bytes_le_order(a.drop_first(), b.drop_first(), b.drop_first());
            }
            if a[0] == b[0] && bytes_le(a, b) && bytes_le(b, a) {
                assert(a == seq![a[0]] + a.drop_first());
                assert(b == seq![b[0]] + b.drop_first());
            }
        }
    } else if b.len() == 0 {
        assert(a == b);
    }
}

proof fn lemma_parts_le_order(a: Seq<Seq<u8>>, b: Seq<Seq<u8>>, c: Seq<Seq<u8>>)
    ensures
        parts_le(a, a),
        parts_le(a, b) || parts_le(b, a),
        parts_le(a, b) && parts_le(b, c) ==> parts_le(a, c),
    decreases a.len(),
{
    if a.len() > 0 {
        lemma_parts_le_order(a.drop_first(), a.drop_first(), a.drop_first());
        if b.len() > 0 {
            lemma_bytes_le_order(a[0], b[0], a[0]);
            if c.len() > 0 {
                lemma_bytes_le_order(a[0], b[0], c[0]);
                lemma_bytes_le_order(b[0], c[0], a[0]);
                lemma_bytes_le_order(c[0], a[0], b[0]);
                lemma_parts_le_order(a.drop_first(), b.drop_first(), c.drop_first());
            } else {
                lemma_parts_le_order(a.drop_first(), b.drop_first(), b.drop_first());
            }
        }
    }
}

proof fn lemma_file_insert_step<P>(
    out: Seq<ListedFile<P>>,
    input: Seq<ListedFile<P>>,
    pos: Seq<int>,
    i: int,
    j: int,
)
    requires
        0 <= i < input.len(),
        file_sort_of(out, input.take(i), pos),
        0 <= j <= out.len(),
        forall|t: int| 0 <= t < j ==> parts_le(file_key(#[trigger] out[t]), file_key(input[i])),
        j < out.len() ==> !parts_le(file_key(out[j]), file_key(input[i])),
    ensures
        file_sort_of(out.insert(j, input[i]), input.take(i + 1), pos.insert(j, i)),
{
    let e = input[i];
    let ke = file_key(e);
    let out2 = out.insert(j, e);
    let pos2 = pos.insert(j, i);
    let inp = input.take(i + 1);
    assert forall|t: int| 0 <= t < out.len() implies pos[t] < i && #[trigger] out[t] == input[pos[t]] by {
        assert(input.take(i)[pos[t]] == input[pos[t]]);
    }
    assert forall|t: int| 0 <= t < out2.len() implies 0 <= #[trigger] pos2[t] < inp.len()
        && out2[t] == inp[pos2[t]] by {
        if t < j {
            assert(out2[t] == out[t] && pos2[t] == pos[t]);
        } else if t > j {
            assert(out2[t] == out[t - 1] && pos2[t] == pos[t - 1]);
        }
    }
    assert forall|t: int| j <= t < out.len() implies parts_le(ke, file_key(#[trigger] out[t]))
        && file_key(out[t]) != ke by {
        lemma_parts_le_order(file_key(out[j]), ke, ke);
        lemma_parts_le_order(ke, file_key(out[j]), file_key(out[t]));
        if j < t {
            assert(parts_le(file_key(out[j]), file_key(out[t])));
        }
        if file_key(out[t]) == ke {
            lemma_parts_le_order(file_key(out[j]), file_key(out[t]), ke);
            if j < t {
                assert(parts_le(file_key(out[j]), file_key(out[t])));
            }
        }
    }
    assert forall|j1: int, j2: int| 0 <= j1 < j2 < out2.len() implies #[trigger] pos2[j1]
        != #[trigger] pos2[j2] && parts_le(file_key(out2[j1]), file_key(out2[j2])) && (file_key(
        out2[j1],
    ) == file_key(out2[j2]) ==> pos2[j1] < pos2[j2]) by {
        if j1 < j && j2 < j {
            assert(out2[j1] == out[j1] && out2[j2] == out[j2]);
        } else if j1 < j && j2 == j {
            assert(out2[j1] == out[j1]);
        } else if j1 < j && j2 > j {
            assert(out2[j1] == out[j1] && out2[j2] == out[j2 - 1]);
            lemma_parts_le_order(file_key(out[j1]), ke, file_key(out[j2 - 1]));
        } else if j1 == j {
            assert(out2[j2] == out[j2 - 1]);
        } else {
            assert(out2[j1] == out[j1 - 1] && out2[j2] == out[j2 - 1]);
        }
    }
}

fn bytes_le_exec(a: &Vec<u8>, b: &Vec<u8>) -> (r: (bool, bool))
    ensures
        r.0 == bytes_le(a@, b@),
        r.1 == (a@ == b@),
{
    let mut i: usize = 0;
    while i < a.len() && i < b.len() && a[i] == b[i]
        invariant
            i <= a@.len(),
            i <= b@.len(),
            forall|k: int| 0 <= k < i ==> a@[k] == b@[k],
        decreases a.len() - i,
    {
        i = i + 1;
    }
    proof {
        lemma_bytes_skip(a@, b@, i as int);
    }
    if i == a.len() {
        if i == b.len() {
            assert(a@ =~= b@);
        }
        (true, i == b.len())
    } else if i == b.len() {
        (false, false)
    } else {
        (a[i] < b[i], false)
    }
}

proof fn lemma_bytes_skip(a: Seq<u8>, b: Seq<u8>, i: int)
    requires
        0 <= i <= a.len(),
        i <= b.len(),
        forall|k: int| 0 <= k < i ==> a[k] == b[k],
    ensures
        bytes_le(a, b) == bytes_le(a.skip(i), b.skip(i)),
    decreases i,
{
    if i > 0 {
        assert(a.drop_first().skip(i - 1) == a.skip(i));
        assert(b.drop_first().skip(i - 1) == b.skip(i));
        lemma_bytes_skip(a.drop_first(), b.drop_first(), i - 1);
    } else {
        assert(a.skip(0) == a);
        assert(b.skip(0) == b);
    }
}

proof fn lemma_parts_skip(a: Seq<Seq<u8>>, b: Seq<Seq<u8>>, i: int)
    requires
        0 <= i <= a.len(),
        i <= b.len(),
        forall|k: int| 0 <= k < i ==> a[k] == b[k],
    ensures
        parts_le(a, b) == parts_le(a.skip(i), b.skip(i)),
    decreases i,
{
    if i > 0 {
        assert(a.drop_first().skip(i - 1) == a.skip(i));
        assert(b.drop_first().skip(i - 1) == b.skip(i));
        lemma_parts_skip(a.drop_first(), b.drop_first(), i - 1);
    } else {
        assert(a.skip(0) == a);
        assert(b.skip(0) == b);
    }
}

fn parts_le_exec(a: &Vec<Vec<u8>>, b: &Vec<Vec<u8>>) -> (r: bool)
    ensures
        r == parts_le(a@.map_values(|p: Vec<u8>| p@), b@.map_values(|p: Vec<u8>| p@)),
{
    let ghost ka = a@.map_values(|p: Vec<u8>| p@);
    let ghost kb = b@.map_values(|p: Vec<u8>| p@);
    let mut i: usize = 0;
    while i < a.len() && i < b.len()
        invariant
            ka == a@.map_values(|p: Vec<u8>| p@),
            kb == b@.map_values(|p: Vec<u8>| p@),
            i <= a@.len(),
            i <= b@.len(),
            forall|k: int| 0 <= k < i ==> ka[k] == kb[k],
        decreases a.len() - i,
    {
        let (le, eq) = bytes_le_exec(&a[i], &b[i]);
        if !eq {
            proof {
                lemma_parts_skip(ka, kb, i as int);
                assert(ka.skip(i as int)[0] == ka[i as int]);
                assert(kb.skip(i as int)[0] == kb[i as int]);
            }
            return le;
        }
        i = i + 1;
    }
    proof {
        lemma_parts_skip(ka, kb, i as int);
    }
    i == a.len()
}

/// The paths of the listed preset files in path order, files with the same
/// parts keeping their order.
pub fn sort_snapshot_files<P>(files: Vec<ListedFile<P>>) -> (r: Vec<P>)
    ensures
        exists|sorted: Seq<ListedFile<P>>, pos: Seq<int>|
            file_sort_of(sorted, files@, pos) && r@ == sorted.map_values(|f: ListedFile<P>| f.path),
{
    let ghost input = files@;
    let n = files.len();
    let mut rest = files;
    let mut out: Vec<ListedFile<P>> = Vec::new();
    let ghost mut pos: Seq<int> = Seq::empty();
    let mut i: usize = 0;
    assert(input.take(0).len() == 0);
    while i < n
        invariant
            n == input.len(),
            i <= n,
            rest@ == input.skip(i as int),
            file_sort_of(out@, input.take(i as int), pos),
        decreases n - i,
    {
        let e = rest.remove(0);
        assert(e == input[i as int]);
        assert(rest@ == input.skip(i + 1));
        let mut j: usize = 0;
        while j < out.len() && parts_le_exec(&out[j].parts, &e.parts)
            invariant
                j <= out@.len(),
                forall|t: int| 0 <= t < j ==> parts_le(file_key(#[trigger] out@[t]), file_key(e)),
            decreases out.len() - j,
        {
            j = j + 1;
        }
        proof {
            lemma_file_insert_step(out@, input, pos, i as int, j as int);
            pos = pos.insert(j as int, i as int);
        }
        out.insert(j, e);
        i = i + 1;
    }
    assert(input.take(n as int) == input);
    let ghost sorted = out@;
    let mut paths: Vec<P> = Vec::new();
    let mut k: usize = 0;
    while k < n
        invariant
            n == sorted.len(),
            k <= n,
            out@ == sorted.skip(k as int),
            paths@ == sorted.take(k as int).map_values(|f: ListedFile<P>| f.path),
        decreases n - k,
    {
        let f = out.remove(0);
        assert(f == sorted[k as int]);
        assert(out@ == sorted.skip(k + 1));
        paths.push(f.path);
        assert(sorted.take(k + 1) == sorted.take(k as int).push(sorted[k as int]));
        assert(paths@ =~= sorted.take(k + 1).map_values(|f: ListedFile<P>| f.path));
        k = k + 1;
    }
    assert(sorted.take(n as int) == sorted);
    paths
}

} // verus!
