use vstd::prelude::*;
use vstd::string::StrSliceExecFns;
use vstd::string::StringExecFns;

use crate::action::Action;
use crate::strutil::first_index_of;
use crate::strutil::last_index_of;
use crate::strutil::lemma_first_index_of;
use crate::strutil::lemma_last_index_of;
use crate::strutil::lemma_last_index_of_absent;
use crate::strutil::lemma_last_index_of_at;
use crate::strutil::lemma_last_index_of_concat;
use crate::strutil::ends_with_spec;
use crate::strutil::ffind_char;
use crate::strutil::replace_char_spec;
use crate::strutil::replace_char_with_underscore;
use crate::strutil::rfind_char;
use crate::strutil::strip_trailing;
use crate::strutil::strip_trailing_end;

verus! {

/// The final path component of `s`: what follows the last `/` once trailing
/// slashes are dropped.
pub open spec fn file_name_spec(s: Seq<char>) -> Seq<char> {
    let t = strip_trailing(s, '/');
    t.subrange(last_index_of(t, '/') + 1, t.len() as int)
}

/// True when `s` has a nonempty final path component.
pub open spec fn has_file_name(s: Seq<char>) -> bool {
    file_name_spec(s).len() > 0
}

/// The portion of a file name before its last `.`; the whole name when there
/// is no `.` or when the only `.` is the leading character.
pub open spec fn file_stem_spec(name: Seq<char>) -> Seq<char> {
    let i = last_index_of(name, '.');
    if i <= 0 {
        name
    } else {
        name.subrange(0, i)
    }
}

/// The path `s` without its final component: what precedes the last `/`,
/// its own trailing slashes dropped; `/` alone when only the root remains,
/// and empty for a bare name.
pub open spec fn parent_spec(s: Seq<char>) -> Seq<char> {
    let t = strip_trailing(s, '/');
    let i = last_index_of(t, '/');
    if i < 0 {
        Seq::<char>::empty()
    } else {
        let p = strip_trailing(t.subrange(0, i), '/');
        if p.len() == 0 && t[0] == '/' {
            seq!['/']
        } else {
            p
        }
    }
}

/// The final path component of `target` up to (not including) its first `.`.
pub open spec fn parse_output_name_spec(target: Seq<char>) -> Seq<char> {
    let name = file_name_spec(target);
    let i = first_index_of(name, '.');
    if i == -1 {
        name
    } else {
        name.subrange(0, i)
    }
}

/// The text a timestamp adds to an output name: a literal separator prefix,
/// then the stamp with every `:` replaced by `_`; empty when no stamp was
/// requested.
pub open spec fn stamp_suffix_spec(stamp: Option<Seq<char>>) -> Seq<char> {
    match stamp {
        Some(ts) => "__bottled_"@ + replace_char_spec(ts, ':', '_'),
        None => Seq::<char>::empty(),
    }
}

/// The output name for `target` under `action`: encryption appends the
/// optional stamp and the `.age` (file) or `.tar.gz.age` (directory) suffix
/// to the final path component; decryption strips the last extension (file)
/// or the whole eleven-character directory suffix.
pub open spec fn output_name_spec(target: Seq<char>, action: Action, stamp: Option<Seq<char>>) -> Seq<char> {
    let name = file_name_spec(target);
    match action {
        Action::EncryptFile => name + stamp_suffix_spec(stamp) + ".age"@,
        Action::EncryptDir => name + stamp_suffix_spec(stamp) + ".tar.gz.age"@,
        Action::DecryptFile => file_stem_spec(name),
        Action::DecryptDir => name.subrange(0, name.len() - 11),
    }
}

/// The view of an optional borrowed stamp.
pub open spec fn stamp_view(stamp: Option<&str>) -> Option<Seq<char>> {
    match stamp {
        Some(ts) => Some(ts@),
        None => None,
    }
}

/// The final path component of `s`.
pub fn file_name_of(s: &str) -> (r: &str)
    ensures
        r@ == file_name_spec(s@),
{
    let e = strip_trailing_end(s, '/');
    let t = s.substring_char(0, e);
    proof {
        lemma_last_index_of(t@, '/');
    }
    match rfind_char(t, '/') {
        Some(i) => t.substring_char(i + 1, e),
        None => {
            proof {
                assert(t@.subrange(0, t@.len() as int) =~= t@);
            }
            t
        },
    }
}

/// True when `s` has a nonempty final path component.
pub fn has_base_name(s: &str) -> (r: bool)
    ensures
        r == has_file_name(s@),
{
    let name = file_name_of(s);
    !name.is_empty()
}

/// The final path component of the target, cut at its first `.`.
pub fn parse_output_name(target_file_name: &str) -> (r: String)
    ensures
        r@ == parse_output_name_spec(target_file_name@),
{
    let name = file_name_of(target_file_name);
    proof {
        lemma_first_index_of(name@, '.');
    }
    let stem = match ffind_char(name, '.') {
        Some(i) => name.substring_char(0, i),
        None => name,
    };
    proof {
        if first_index_of(name@, '.') == -1 {
            assert(stem@ =~= parse_output_name_spec(target_file_name@));
        }
    }
    String::from_str(stem)
}

/// The output name for `target` under `action`, with an optional raw
/// timestamp text whose `:` characters are made file-name safe.
pub fn compute_output_name(target: &str, action: &Action, stamp: Option<&str>) -> (r: String)
    requires
        *action is DecryptDir ==> file_name_spec(target@).len() >= 11,
    ensures
        r@ == output_name_spec(target@, *action, stamp_view(stamp)),
{
    let name = file_name_of(target);
    let stamp_text: String = match stamp {
        Some(ts) => {
            let mut t = String::from_str("__bottled_");
            let replaced = replace_char_with_underscore(ts, ':');
            t.append(replaced.as_str());
            t
        },
        None => String::new(),
    };
    match *action {
        Action::EncryptFile => {
            let mut out = String::from_str(name);
            out.append(stamp_text.as_str());
            out.append(".age");
            out
        },
        Action::EncryptDir => {
            let mut out = String::from_str(name);
            out.append(stamp_text.as_str());
            out.append(".tar.gz.age");
            out
        },
        Action::DecryptFile => {
            proof {
                lemma_last_index_of(name@, '.');
            }
            match rfind_char(name, '.') {
                Some(i) => {
                    if i == 0 {
                        String::from_str(name)
                    } else {
                        String::from_str(name.substring_char(0, i))
                    }
                },
                None => String::from_str(name),
            }
        },
        Action::DecryptDir => {
            let n = name.unicode_len();
            String::from_str(name.substring_char(0, n - 11))
        },
    }
}

/// Relies on chrono's `Local::now` and `to_rfc3339_opts` to render the current
/// local time to seconds precision; nothing is stated about the text, since it
/// depends on the clock.
#[verifier::external_body]
fn now_local_rfc3339() -> String {
    chrono::Local::now().to_rfc3339_opts(chrono::SecondsFormat::Secs, true)
}

/// The output name for the target under the resolved action; when asked, a
/// timestamp taken from the local clock is woven in before the suffix.
pub fn determine_output_file_name(
    target_file_name: &str,
    action_to_take: &Action,
    add_timestamp: bool,
) -> (r: String)
    requires
        *action_to_take is DecryptDir ==> file_name_spec(target_file_name@).len() >= 11,
    ensures
        !add_timestamp ==> r@ == output_name_spec(target_file_name@, *action_to_take, None),
        add_timestamp ==> exists|ts: Seq<char>|
            r@ == output_name_spec(target_file_name@, *action_to_take, Some(ts)),
{
    if add_timestamp {
        let now = now_local_rfc3339();
        let r = compute_output_name(target_file_name, action_to_take, Some(now.as_str()));
        proof {
            let ts = now@;
            assert(r@ == output_name_spec(target_file_name@, *action_to_take, Some(ts)));
        }
        r
    } else {
        compute_output_name(target_file_name, action_to_take, None)
    }
}

/// The path for the transient tar file: it sits in the target's parent
/// directory and its name is derived from the output name, every `.` made
/// an underscore.
pub fn compose_path_for_temp_tar_file(target_file_name: &str, output_filename: &str) -> (r: String)
    ensures
        r@ == parent_spec(target_file_name@) + "/_tarfile_created_by_bottle_for_"@
            + replace_char_spec(output_filename@, '.', '_') + ".tar"@,
{
    let e = strip_trailing_end(target_file_name, '/');
    let t = target_file_name.substring_char(0, e);
    proof {
        lemma_last_index_of(t@, '/');
    }
    let mut out: String = match rfind_char(t, '/') {
        Some(i) => {
            let p = t.substring_char(0, i);
            let e2 = strip_trailing_end(p, '/');
            if e2 == 0 && t.get_char(0) == '/' {
                let root = t.substring_char(0, 1);
                proof {
                    assert(root@ =~= seq!['/']);
                }
                String::from_str(root)
            } else {
                String::from_str(p.substring_char(0, e2))
            }
        },
        None => String::new(),
    };
    out.append("/_tarfile_created_by_bottle_for_");
    let replaced = replace_char_with_underscore(output_filename, '.');
    out.append(replaced.as_str());
    out.append(".tar");
    out
}

/// A target that ends with the directory suffix carries it whole inside its
/// final path component, which is therefore at least eleven characters long.
pub proof fn lemma_dir_suffix_in_file_name(target: Seq<char>)
    requires
        ends_with_spec(target, ".tar.gz.age"@),
    ensures
        file_name_spec(target).len() >= 11,
        ends_with_spec(file_name_spec(target), ".tar.gz.age"@),
{
    reveal_strlit(".tar.gz.age");
    let sfx = ".tar.gz.age"@;
    let n = target.len() as int;
    assert(forall|j: int| n - 11 <= j < n ==> target[j] == sfx[j - (n - 11)]);
    assert(target[n - 1] == 'e');
    assert(strip_trailing(target, '/') == target);
    lemma_last_index_of(target, '/');
    let l = last_index_of(target, '/');
    if l >= n - 11 {
        assert(target[l] == '/');
        assert(sfx[l - (n - 11)] == '/');
        assert(false);
    }
    let name = file_name_spec(target);
    assert(name.len() == n - l - 1 >= 11);
    assert(name.subrange(name.len() - 11, name.len() as int) =~= sfx);
}

/// The final path component never contains a slash.
proof fn lemma_file_name_no_slash(s: Seq<char>)
    ensures
        forall|j: int| 0 <= j < file_name_spec(s).len() ==> file_name_spec(s)[j] != '/',
{
    let t = strip_trailing(s, '/');
    lemma_last_index_of(t, '/');
    let l = last_index_of(t, '/');
    let name = file_name_spec(s);
    assert forall|j: int| 0 <= j < name.len() implies name[j] != '/' by {
        assert(name[j] == t[l + 1 + j]);
    }
}

/// A nonempty name without slashes is its own final path component.
proof fn lemma_file_name_of_slashless(s: Seq<char>)
    requires
        forall|j: int| 0 <= j < s.len() ==> s[j] != '/',
        s.len() > 0,
    ensures
        file_name_spec(s) == s,
{
    assert(strip_trailing(s, '/') == s);
    lemma_last_index_of_absent(s, '/');
    assert(s.subrange(0, s.len() as int) =~= s);
}

/// Naming round trip: the encrypt-name of a target, fed back through the
/// matching decrypt-name rule (timestamps aside), recovers the target's base
/// name exactly — both for single files and for directories.
pub proof fn lemma_naming_round_trip(target: Seq<char>)
    requires
        has_file_name(target),
    ensures
        output_name_spec(
            output_name_spec(target, Action::EncryptFile, None),
            Action::DecryptFile,
            None,
        ) == file_name_spec(target),
        output_name_spec(
            output_name_spec(target, Action::EncryptDir, None),
            Action::DecryptDir,
            None,
        ) == file_name_spec(target),
{
    reveal_strlit(".age");
    reveal_strlit(".tar.gz.age");
    let name = file_name_spec(target);
    lemma_file_name_no_slash(target);

    let encf = name + ".age"@;
    assert(output_name_spec(target, Action::EncryptFile, None) =~= encf);
    assert(encf[name.len() as int + 3] == 'e');
    assert forall|j: int| 0 <= j < encf.len() implies encf[j] != '/' by {
        if j >= name.len() {
            assert(encf[j] == ".age"@[j - name.len()]);
        }
    }
    lemma_file_name_of_slashless(encf);
    lemma_last_index_of_at(".age"@, '.', 0);
    lemma_last_index_of_concat(name, ".age"@, '.');
    assert(last_index_of(encf, '.') == name.len());
    assert(encf.subrange(0, name.len() as int) =~= name);

    let encd = name + ".tar.gz.age"@;
    assert(output_name_spec(target, Action::EncryptDir, None) =~= encd);
    assert(encd[name.len() as int + 10] == 'e');
    assert forall|j: int| 0 <= j < encd.len() implies encd[j] != '/' by {
        if j >= name.len() {
            assert(encd[j] == ".tar.gz.age"@[j - name.len()]);
        }
    }
    lemma_file_name_of_slashless(encd);
    assert(encd.subrange(0, encd.len() - 11) =~= name);
}

} // verus!
