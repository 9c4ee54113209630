//! Configuration model and the pure parts of configuration handling: merging
//! the three configuration sources, interpreting policy strings, and
//! extracting a resource id from a resource URL or a bare number.

use vstd::prelude::*;

use crate::delta_builder::DeltaAction;
use crate::resource::eq_ignore_ascii_case;
use crate::resource::eq_ignore_ascii_case_seq;
use crate::strutil::digit_run_end;
use crate::strutil::find_char;
use crate::strutil::first_idx;
use crate::strutil::is_digit;
use crate::strutil::is_digit_exec;
use crate::strutil::is_u64_digits;
use crate::strutil::lemma_digit_run_end;
use crate::strutil::lemma_first_idx;
use crate::strutil::match_at;
use crate::strutil::matches_at;
use crate::strutil::parse_u64;
use crate::strutil::spec_trim;
use crate::strutil::trim_str;

verus! {

/// The configuration of one synchronization run: the target directory, the
/// wanted resource ids, and the two category policy strings.
#[derive(Debug)]
pub struct AppConfig {
    /// The path to the client mods directory.
    pub client_mods_dir: Option<String>,
    /// List of resource ids to keep synchronized.
    pub mods: Vec<String>,
    /// How to handle outdated resources: `skip` or `delete`.
    pub outdated: Option<String>,
    /// How to handle unsupported resources: `skip` or `delete`.
    pub unsupported: Option<String>,
}

/// The first of two optional values that is present, if any.
pub open spec fn spec_or<T>(a: Option<T>, b: Option<T>) -> Option<T> {
    match a {
        Option::Some(_) => a,
        Option::None => b,
    }
}

fn or_string(a: Option<String>, b: Option<String>) -> (r: Option<String>)
    ensures
        r == spec_or(a, b),
{
    match a {
        Option::Some(v) => Option::Some(v),
        Option::None => b,
    }
}

fn append_all(dst: &mut Vec<String>, src: &Vec<String>)
    ensures
        final (dst)@ == old(dst)@ + src@,
{
    let ghost orig = dst@;
    for i in 0..src.len()
        invariant
            dst@ == orig + src@.subrange(0, i as int),
    {
        dst.push(src[i].clone());
        proof {
            assert(orig + src@.subrange(0, i as int) + seq![src@[i as int]] =~= orig
                + src@.subrange(0, i + 1));
        }
    }
    proof {
        assert(src@.subrange(0, src@.len() as int) =~= src@);
    }
}

/// Merges the three configuration sources. An option set by the environment
/// wins over one set on the command line, which wins over one set in the
/// configuration file; the wanted-id lists are concatenated in that order.
pub fn merge_configs(env_config: AppConfig, cli_config: AppConfig, file_config: AppConfig) -> (r:
    AppConfig)
    ensures
        r.client_mods_dir == spec_or(
            env_config.client_mods_dir,
            spec_or(cli_config.client_mods_dir, file_config.client_mods_dir),
        ),
        r.mods@ == env_config.mods@ + cli_config.mods@ + file_config.mods@,
        r.outdated == spec_or(env_config.outdated, spec_or(cli_config.outdated, file_config.outdated)),
        r.unsupported == spec_or(
            env_config.unsupported,
            spec_or(cli_config.unsupported, file_config.unsupported),
        ),
{
    let mut mods = env_config.mods;
    append_all(&mut mods, &cli_config.mods);
    append_all(&mut mods, &file_config.mods);
    AppConfig {
        client_mods_dir: or_string(
            env_config.client_mods_dir,
            or_string(cli_config.client_mods_dir, file_config.client_mods_dir),
        ),
        mods,
        outdated: or_string(
            env_config.outdated,
            or_string(cli_config.outdated, file_config.outdated),
        ),
        unsupported: or_string(
            env_config.unsupported,
            or_string(cli_config.unsupported, file_config.unsupported),
        ),
    }
}

/// The policy that a configuration string stands for: `skip` and `delete`,
/// compared without regard to ASCII case or surrounding whitespace, name
/// their actions; anything else, or no string at all, means `Ignore`.
pub open spec fn spec_parse_delta_action(s: Option<String>) -> DeltaAction {
    match s {
        Option::None => DeltaAction::Ignore,
        Option::Some(action) => {
            if eq_ignore_ascii_case_seq(spec_trim(action@), "skip"@) {
                DeltaAction::Skip
            } else if eq_ignore_ascii_case_seq(spec_trim(action@), "delete"@) {
                DeltaAction::Delete
            } else {
                DeltaAction::Ignore
            }
        },
    }
}

/// Parses the delta action string and returns the corresponding policy value.
pub fn parse_delta_action(delta_action_string: &Option<String>) -> (r: DeltaAction)
    ensures
        r == spec_parse_delta_action(*delta_action_string),
{
    match delta_action_string {
        Option::None => DeltaAction::Ignore,
        Option::Some(action) => {
            let trimmed = trim_str(action.as_str());
            if eq_ignore_ascii_case(trimmed, "skip") {
                DeltaAction::Skip
            } else if eq_ignore_ascii_case(trimmed, "delete") {
                DeltaAction::Delete
            } else {
                DeltaAction::Ignore
            }
        },
    }
}

/// The comma-delimited segments of a wanted-id list, each ASCII-trimmed, in
/// order, with empty pieces dropped.
pub open spec fn spec_split_trimmed(s: Seq<char>) -> Seq<Seq<char>>
    decreases s.len(),
{
    let i = first_idx(s, ',');
    if i < 0 || i >= s.len() {
        if spec_trim(s).len() == 0 {
            Seq::empty()
        } else {
            seq![spec_trim(s)]
        }
    } else {
        let head = spec_trim(s.subrange(0, i));
        let rest = spec_split_trimmed(s.subrange(i + 1, s.len() as int));
        if head.len() == 0 {
            rest
        } else {
            seq![head] + rest
        }
    }
}

/// Splits a raw wanted-id list at commas, trims each piece and drops the
/// empty ones.
pub fn split_mod_values(raw: &str) -> (r: Vec<String>)
    ensures
        r@.len() == spec_split_trimmed(raw@).len(),
        forall|k: int| 0 <= k < r@.len() ==> r@[k]@ == spec_split_trimmed(raw@)[k],
    decreases raw@.len(),
{
    let n = raw.unicode_len();
    match find_char(raw, ',') {
        Option::None => {
            proof {
                lemma_first_idx(raw@, ',', n as int);
            }
            let trimmed = trim_str(raw);
            let mut out: Vec<String> = Vec::new();
            if trimmed.unicode_len() > 0 {
                out.push(String::from_str(trimmed));
            }
            out
        },
        Option::Some(i) => {
            proof {
                lemma_first_idx(raw@, ',', i as int);
            }
            let head = trim_str(raw.substring_char(0, i));
            let tail = split_mod_values(raw.substring_char(i + 1, n));
            if head.unicode_len() == 0 {
                tail
            } else {
                let mut out: Vec<String> = Vec::new();
                out.push(String::from_str(head));
                for k in 0..tail.len()
                    invariant
                        out@.len() == 1 + k,
                        out@[0]@ == head@,
                        forall|j: int| 0 <= j < k ==> out@[j + 1]@ == tail@[j]@,
                {
                    out.push(tail[k].clone());
                }
                out
            }
        },
    }
}

/// The address under which the remote site lists its resources.
pub open spec fn url_prefix() -> Seq<char> {
    "https://www.beamng.com/resources/"@
}

/// Position `p` holds a dot directly followed by a digit, behind the resource
/// listing prefix; the id embedded in a resource URL is the digit run after
/// the last such dot.
pub open spec fn id_dot_at(s: Seq<char>, p: int) -> bool {
    &&& matches_at(s, url_prefix(), 0)
    &&& url_prefix().len() <= p
    &&& p + 1 < s.len()
    &&& s[p] == '.'
    &&& is_digit(s[p + 1])
}

/// If the value names a resource id directly (a number), it is returned as
/// is. If it is a resource URL, the id embedded in the URL is extracted: the
/// run of digits after the last dot that is directly followed by a digit.
/// Any other value yields nothing.
pub fn get_mod_id(mod_value: &str) -> (r: Option<String>)
    ensures
        is_u64_digits(mod_value@) ==> (r matches Option::Some(id) && id@ == mod_value@),
        !is_u64_digits(mod_value@) ==> match r {
            Option::Some(id) => exists|p: int|
                {
                    &&& #[trigger] id_dot_at(mod_value@, p)
                    &&& forall|q: int| p < q ==> !id_dot_at(mod_value@, q)
                    &&& id@ == mod_value@.subrange(p + 1, digit_run_end(mod_value@, p + 1))
                },
            Option::None => forall|p: int| !id_dot_at(mod_value@, p),
        },
{
    if parse_u64(mod_value).is_some() {
        return Option::Some(String::from_str(mod_value));
    }
    let prefix = "https://www.beamng.com/resources/";
    if !match_at(mod_value, prefix, 0) {
        return Option::None;
    }
    let n = mod_value.unicode_len();
    let plen = prefix.unicode_len();
    let mut i = n;
    while i > plen
        invariant
            n == mod_value@.len(),
            plen == url_prefix().len(),
            matches_at(mod_value@, url_prefix(), 0),
            plen <= i <= n,
            forall|q: int| i <= q ==> !id_dot_at(mod_value@, q),
        decreases i,
    {
        i = i - 1;
        let is_id_dot = mod_value.get_char(i) == '.' && i + 1 < n && is_digit_exec(
            mod_value.get_char(i + 1),
        );
        if is_id_dot {
            let mut e = i + 1;
            while e < n && is_digit_exec(mod_value.get_char(e))
                invariant
                    n == mod_value@.len(),
                    i + 1 <= e <= n,
                    forall|j: int| i + 1 <= j < e ==> is_digit(#[trigger] mod_value@[j]),
                decreases n - e,
            {
                e = e + 1;
            }
            proof {
                lemma_digit_run_end(mod_value@, i + 1, e as int);
                assert(id_dot_at(mod_value@, i as int));
                assert(forall|q: int| i < q ==> !id_dot_at(mod_value@, q));
            }
            return Option::Some(String::from_str(mod_value.substring_char(i + 1, e)));
        }
    }
    Option::None
}

} // verus!
