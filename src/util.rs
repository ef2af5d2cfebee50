//! Node identity: generated ids, host names, request ids.
use vstd::prelude::*;
use vstd::string::*;
use rand::Rng;

verus! {

/// The lower-case form of a string, as `str::to_lowercase` computes it.
pub uninterp spec fn lower_of(s: Seq<char>) -> Seq<char>;

/// An ASCII letter or digit.
pub open spec fn is_alphanumeric(c: char) -> bool {
    ('a' <= c && c <= 'z') || ('A' <= c && c <= 'Z') || ('0' <= c && c <= '9')
}

/// A lower-case hexadecimal digit.
pub open spec fn is_lower_hex(c: char) -> bool {
    ('a' <= c && c <= 'f') || ('0' <= c && c <= '9')
}

/// The hyphenated lower-case text form of a UUID: 8-4-4-4-12 hex digits.
pub open spec fn is_hyphenated_uuid(s: Seq<char>) -> bool {
    &&& s.len() == 36
    &&& forall|i: int| 0 <= i < 36 ==> (if i == 8 || i == 13 || i == 18 || i == 23 {
        s[i] == '-'
    } else {
        is_lower_hex(#[trigger] s[i])
    })
}

/// Relies on `str::to_lowercase`: its result depends on the characters alone.
#[verifier::external_body]
pub(crate) fn lowercase(s: &str) -> (r: String)
    ensures
        r@ == lower_of(s@),
{
    s.to_lowercase()
}

/// Relies on rand's `Alphanumeric` distribution sampled from `thread_rng`:
/// `len` characters, each drawn from `A-Z`, `a-z` and `0-9`.
#[verifier::external_body]
fn random_alphanumeric(len: usize) -> (r: String)
    ensures
        r@.len() == len,
        forall|i: int| 0 <= i < len ==> is_alphanumeric(#[trigger] r@[i]),
{
    rand::thread_rng().sample_iter(&rand::distributions::Alphanumeric).take(len).map(char::from).collect()
}

/// A random (version 4) UUID in hyphenated lower-case form: the version
/// digit is `4` and the variant digit is one of `8`, `9`, `a`, `b`.
pub open spec fn is_uuid_v4(s: Seq<char>) -> bool {
    &&& is_hyphenated_uuid(s)
    &&& s[14] == '4'
    &&& (s[19] == '8' || s[19] == '9' || s[19] == 'a' || s[19] == 'b')
}

/// Relies on uuid's `Uuid::new_v4`, which sets the version nibble to 4 and
/// the variant bits to `10`, and on its `Display`, which writes the
/// hyphenated lower-case form.
#[verifier::external_body]
pub(crate) fn new_uuid_v4() -> (r: String)
    ensures
        is_uuid_v4(r@),
{
    uuid::Uuid::new_v4().to_string()
}

/// A copy of a list of strings.
pub(crate) fn copy_strings(v: &Vec<String>) -> (r: Vec<String>)
    ensures
        r@ == v@,
{
    let mut out: Vec<String> = Vec::new();
    let mut i: usize = 0;
    while i < v.len()
        invariant
            i <= v@.len(),
            out@ == v@.subrange(0, i as int),
        decreases v@.len() - i,
    {
        out.push(v[i].clone());
        proof {
            assert(out@ =~= v@.subrange(0, i + 1));
        }
        i = i + 1;
    }
    proof {
        assert(out@ =~= v@);
    }
    out
}

/// The node id for a host, a process id and a suffix, before lower-casing.
pub open spec fn node_id_text(hostname: Seq<char>, pid: Seq<char>, suffix: Seq<char>) -> Seq<char> {
    hostname + seq!['.'] + pid + seq!['-'] + suffix
}

/// Builds `<hostname>.<pid>-<suffix>`, lower-cased.
pub fn format_node_id(hostname: &str, pid: &str, suffix: &str) -> (r: String)
    ensures
        r@ == lower_of(node_id_text(hostname@, pid@, suffix@)),
{
    let mut id = hostname.to_owned();
    id.append(".");
    id.append(pid);
    id.append("-");
    id.append(suffix);
    proof {
        reveal_strlit(".");
        reveal_strlit("-");
        assert(id@ =~= node_id_text(hostname@, pid@, suffix@));
    }
    lowercase(id.as_str())
}

/// A fresh node id `<hostname>.<pid>-<6 random letters or digits>`, lower-cased.
pub fn gen_node_id(hostname: &str, pid: &str) -> (r: String)
    ensures
        exists|suffix: Seq<char>|
            suffix.len() == 6 && (forall|i: int| 0 <= i < 6 ==> is_alphanumeric(#[trigger] suffix[i]))
                && r@ == lower_of(node_id_text(hostname@, pid@, suffix)),
{
    let suffix = random_alphanumeric(6);
    format_node_id(hostname, pid, suffix.as_str())
}

/// The host name as reported, lower-cased, or `unknown_host_name` when the
/// system could not report one.
pub fn hostname(reported: Option<&str>) -> (r: String)
    ensures
        match reported {
            Some(h) => r@ == lower_of(h@),
            None => r@ == "unknown_host_name"@,
        },
{
    match reported {
        Some(h) => lowercase(h),
        None => "unknown_host_name".to_owned(),
    }
}

} // verus!
