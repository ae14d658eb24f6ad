//! Names of helper pods: how a new one is made, and how the pods of the
//! current user are told from others.

use vstd::prelude::*;
use rand::Rng;
use crate::keys::{pod_prefix, pod_prefix_spec};
use crate::model::{copy_text, text_of, text_or_default, text_or_empty};
use crate::numeric::{decimal, format_u64};
use crate::text::{
    extend_chars, extend_str, from_chars, lowercase, starts_with, to_chars, to_lowercase,
};

verus! {

/// Whether `c` is a letter or a digit, as the standard library's
/// `char::is_alphanumeric` tells it.
pub uninterp spec fn alphanumeric(c: char) -> bool;

/// Whether `c` is a letter or a digit.
///
/// Stands for `char::is_alphanumeric` of the standard library, which decides
/// by the character alone; the contract gives that answer the name
/// `alphanumeric` and says nothing of which characters it holds for.
#[verifier::external_body]
fn is_alphanumeric(c: char) -> (out: bool)
    ensures
        out == alphanumeric(c),
{
    c.is_alphanumeric()
}

/// The name of the user who runs the process.
///
/// Stands for `whoami::username`. The name comes from the operating system;
/// nothing is claimed of it.
#[verifier::external_body]
pub(crate) fn current_username() -> (out: String) {
    whoami::username()
}

/// Whether `c` is an ASCII letter or an ASCII digit.
pub open spec fn is_ascii_alphanumeric(c: char) -> bool {
    ('0' <= c && c <= '9') || ('A' <= c && c <= 'Z') || ('a' <= c && c <= 'z')
}

/// `count` characters drawn at random.
///
/// Stands for sampling `rand::distributions::Alphanumeric` from
/// `rand::thread_rng()`: each draw is one of the 62 ASCII letters and
/// digits. Which ones come is chance; the contract claims only how many
/// there are and that each is an ASCII letter or digit.
#[verifier::external_body]
pub(crate) fn random_alphanumeric(count: usize) -> (out: Vec<char>)
    ensures
        out@.len() == count,
        forall|i: int| 0 <= i < out@.len() ==> is_ascii_alphanumeric(#[trigger] out@[i]),
{
    rand::thread_rng().sample_iter(&rand::distributions::Alphanumeric).take(count).map(
        char::from,
    ).collect()
}

/// `c` with an ASCII capital letter turned into the small one.
pub open spec fn ascii_lower_spec(c: char) -> char {
    if 'A' <= c && c <= 'Z' {
        ((c as int) + 32) as char
    } else {
        c
    }
}

/// `c` with an ASCII capital letter turned into the small one.
pub fn ascii_lower(c: char) -> (out: char)
    ensures
        out == ascii_lower_spec(c),
{
    if c >= 'A' && c <= 'Z' {
        (c as u8 + 32) as char
    } else {
        c
    }
}

/// The characters of `s` that are letters or digits, in order.
pub open spec fn keep_alphanumeric(s: Seq<char>) -> Seq<char>
    decreases s.len(),
{
    if s.len() == 0 {
        Seq::empty()
    } else if alphanumeric(s.last()) {
        keep_alphanumeric(s.drop_last()).push(s.last())
    } else {
        keep_alphanumeric(s.drop_last())
    }
}

/// The user name as it stands in the name of a helper pod: in lower case,
/// letters and digits only.
pub open spec fn clean_username_spec(username: Seq<char>) -> Seq<char> {
    keep_alphanumeric(lowercase(username))
}

/// The name of a helper pod: `kftray-forward-`, the cleaned user name, the
/// protocol in lower case, the seconds since the epoch and the suffix with
/// its ASCII capitals made small, joined by `-`.
pub open spec fn helper_pod_name_spec(
    username: Seq<char>,
    protocol: Seq<char>,
    unix_seconds: int,
    suffix: Seq<char>,
) -> Seq<char> {
    pod_prefix_spec(clean_username_spec(username)) + "-"@ + lowercase(protocol) + "-"@ + decimal(
        unix_seconds,
    ) + "-"@ + suffix.map_values(|c: char| ascii_lower_spec(c))
}

/// The user name as it stands in the name of a helper pod.
pub fn clean_username(username: &str) -> (out: String)
    ensures
        out@ == clean_username_spec(username@),
{
    let lower = to_lowercase(username);
    let chars = to_chars(lower.as_str());
    let mut out: Vec<char> = Vec::new();
    let mut i: usize = 0;
    proof {
        assert(chars@.subrange(0, 0) =~= Seq::<char>::empty());
    }
    while i < chars.len()
        invariant
            i <= chars.len(),
            out@ == keep_alphanumeric(chars@.subrange(0, i as int)),
        decreases chars.len() - i,
    {
        proof {
            let upto = chars@.subrange(0, i + 1);
            assert(upto.drop_last() =~= chars@.subrange(0, i as int));
            assert(upto.last() == chars@[i as int]);
        }
        if is_alphanumeric(chars[i]) {
            out.push(chars[i]);
        }
        i += 1;
    }
    proof {
        assert(chars@.subrange(0, chars.len() as int) =~= chars@);
    }
    from_chars(&out)
}

/// The name of a helper pod made of these parts.
pub fn helper_pod_name(username: &str, protocol: &str, unix_seconds: u64, suffix: &Vec<char>) -> (out:
    String)
    ensures
        out@ == helper_pod_name_spec(username@, protocol@, unix_seconds as int, suffix@),
{
    let user = clean_username(username);
    let prefix = pod_prefix(user.as_str());
    let mut name = to_chars(prefix.as_str());
    extend_str(&mut name, "-");
    let proto = to_lowercase(protocol);
    extend_str(&mut name, proto.as_str());
    extend_str(&mut name, "-");
    let seconds = format_u64(unix_seconds);
    extend_chars(&mut name, &seconds);
    extend_str(&mut name, "-");
    let ghost head = name@;
    let mut i: usize = 0;
    while i < suffix.len()
        invariant
            i <= suffix.len(),
            name@ == head + suffix@.subrange(0, i as int).map_values(
                |c: char| ascii_lower_spec(c),
            ),
        decreases suffix.len() - i,
    {
        name.push(ascii_lower(suffix[i]));
        i += 1;
        proof {
            assert(name@ =~= head + suffix@.subrange(0, i as int).map_values(
                |c: char| ascii_lower_spec(c),
            ));
        }
    }
    proof {
        assert(suffix@.subrange(0, suffix.len() as int) =~= suffix@);
    }
    from_chars(&name)
}

/// A name for a new helper pod of the current user, with a random suffix of
/// six characters: for some user name and some suffix of six ASCII letters
/// and digits, the name that `helper_pod_name` makes of them.
pub fn new_helper_pod_name(protocol: &str, unix_seconds: u64) -> (out: String)
    ensures
        exists|username: Seq<char>, suffix: Seq<char>|
            suffix.len() == 6 && (forall|i: int|
                0 <= i < suffix.len() ==> is_ascii_alphanumeric(#[trigger] suffix[i])) && out@
                == #[trigger] helper_pod_name_spec(
                username,
                protocol@,
                unix_seconds as int,
                suffix,
            ),
{
    let username = current_username();
    let suffix = random_alphanumeric(6);
    let out = helper_pod_name(username.as_str(), protocol, unix_seconds, &suffix);
    assert(out@ == helper_pod_name_spec(username@, protocol@, unix_seconds as int, suffix@));
    out
}

/// A pod as the cluster lists it: its name and its namespace, where it has
/// them.
#[derive(Debug, PartialEq, Eq)]
pub struct PodRef {
    pub name: Option<String>,
    pub namespace: Option<String>,
}

/// A pod to delete.
#[derive(Debug, PartialEq, Eq)]
pub struct PodTarget {
    pub namespace: String,
    pub name: String,
}

/// A listed pod as plain values.
pub struct PodRefView {
    pub name: Option<Seq<char>>,
    pub namespace: Option<Seq<char>>,
}

/// A pod to delete as plain values.
pub struct PodTargetView {
    pub namespace: Seq<char>,
    pub name: Seq<char>,
}

impl View for PodRef {
    type V = PodRefView;

    open spec fn view(&self) -> PodRefView {
        PodRefView { name: text_of(self.name), namespace: text_of(self.namespace) }
    }
}

impl View for PodTarget {
    type V = PodTargetView;

    open spec fn view(&self) -> PodTargetView {
        PodTargetView { namespace: self.namespace@, name: self.name@ }
    }
}

/// Listed pods as plain values.
pub open spec fn pods_view(pods: Seq<PodRef>) -> Seq<PodRefView> {
    Seq::new(pods.len(), |i: int| pods[i]@)
}

/// Pods to delete as plain values.
pub open spec fn targets_view(targets: Seq<PodTarget>) -> Seq<PodTargetView> {
    Seq::new(targets.len(), |i: int| targets[i]@)
}

/// Whether `pod` is a helper pod of `username`: it has a name, and the name
/// begins as the names of that user's helper pods do, with the user name
/// cleaned as it is when a pod is named.
pub open spec fn is_helper_pod(pod: PodRefView, username: Seq<char>) -> bool {
    pod.name matches Some(name) && pod_prefix_spec(clean_username_spec(username)).is_prefix_of(
        name,
    )
}

/// The pods that are named for a user are helper pods of that user: the
/// filter that looks for pods to delete finds every name that
/// `helper_pod_name` makes, whatever the user name, the protocol, the time
/// and the suffix.
pub proof fn lemma_filter_finds_named_pod(
    username: Seq<char>,
    protocol: Seq<char>,
    unix_seconds: int,
    suffix: Seq<char>,
    namespace: Option<Seq<char>>,
)
    ensures
        is_helper_pod(
            PodRefView {
                name: Some(helper_pod_name_spec(username, protocol, unix_seconds, suffix)),
                namespace,
            },
            username,
        ),
{
    let prefix = pod_prefix_spec(clean_username_spec(username));
    let name = helper_pod_name_spec(username, protocol, unix_seconds, suffix);
    assert(name.subrange(0, prefix.len() as int) =~= prefix);
}

/// The pod to delete for `pod`: in its namespace, or in `default` where it
/// has none.
pub open spec fn target_of(pod: PodRefView) -> PodTargetView {
    PodTargetView {
        namespace: match pod.namespace {
            Some(namespace) => namespace,
            None => "default"@,
        },
        name: text_or_empty(pod.name),
    }
}

/// The helper pods of `username` among `pods`, in order.
pub open spec fn helper_pods_spec(pods: Seq<PodRefView>, username: Seq<char>) -> Seq<
    PodTargetView,
>
    decreases pods.len(),
{
    if pods.len() == 0 {
        Seq::empty()
    } else if is_helper_pod(pods.last(), username) {
        helper_pods_spec(pods.drop_last(), username).push(target_of(pods.last()))
    } else {
        helper_pods_spec(pods.drop_last(), username)
    }
}

/// The name of the first helper pod of `username` among `pods`.
pub open spec fn first_helper_pod(pods: Seq<PodRefView>, username: Seq<char>) -> Option<
    Seq<char>,
>
    decreases pods.len(),
{
    if pods.len() == 0 {
        None
    } else if is_helper_pod(pods[0], username) {
        pods[0].name
    } else {
        first_helper_pod(pods.skip(1), username)
    }
}

/// Whether `pod` has a name that begins with `prefix`.
fn has_prefix(pod: &PodRef, prefix: &Vec<char>) -> (out: bool)
    ensures
        out == (pod@.name matches Some(name) && prefix@.is_prefix_of(name)),
{
    match &pod.name {
        Some(name) => {
            let chars = to_chars(name.as_str());
            starts_with(&chars, prefix)
        },
        None => false,
    }
}

/// The helper pods of `username` among `pods`, each with the namespace to
/// delete it in.
pub fn select_helper_pods(pods: &Vec<PodRef>, username: &str) -> (out: Vec<PodTarget>)
    ensures
        targets_view(out@) == helper_pods_spec(pods_view(pods@), username@),
{
    let clean = clean_username(username);
    let prefix_text = pod_prefix(clean.as_str());
    let prefix = to_chars(prefix_text.as_str());
    let mut out: Vec<PodTarget> = Vec::new();
    let mut i: usize = 0;
    let ghost all = pods_view(pods@);
    proof {
        assert(all.subrange(0, 0) =~= Seq::<PodRefView>::empty());
        assert(targets_view(out@) =~= Seq::<PodTargetView>::empty());
    }
    while i < pods.len()
        invariant
            i <= pods.len(),
            all == pods_view(pods@),
            prefix@ == pod_prefix_spec(clean_username_spec(username@)),
            targets_view(out@) == helper_pods_spec(all.subrange(0, i as int), username@),
        decreases pods.len() - i,
    {
        proof {
            let upto = all.subrange(0, i + 1);
            assert(upto.drop_last() =~= all.subrange(0, i as int));
            assert(upto.last() == pods@[i as int]@);
        }
        if has_prefix(&pods[i], &prefix) {
            let ghost before = targets_view(out@);
            let target = PodTarget {
                namespace: match &pods[i].namespace {
                    Some(namespace) => namespace.clone(),
                    None => String::from_str("default"),
                },
                name: text_or_default(&pods[i].name),
            };
            out.push(target);
            proof {
                assert(targets_view(out@) =~= before.push(target@));
            }
        }
        i += 1;
    }
    proof {
        assert(all.subrange(0, pods.len() as int) =~= all);
    }
    out
}

/// The name of the first helper pod of `username` among `pods`.
pub fn find_helper_pod(pods: &Vec<PodRef>, username: &str) -> (out: Option<String>)
    ensures
        text_of(out) == first_helper_pod(pods_view(pods@), username@),
{
    let clean = clean_username(username);
    let prefix_text = pod_prefix(clean.as_str());
    let prefix = to_chars(prefix_text.as_str());
    let mut i: usize = 0;
    let ghost all = pods_view(pods@);
    proof {
        assert(all.skip(0) =~= all);
    }
    while i < pods.len()
        invariant
            i <= pods.len(),
            all == pods_view(pods@),
            prefix@ == pod_prefix_spec(clean_username_spec(username@)),
            first_helper_pod(all, username@) == first_helper_pod(all.skip(i as int), username@),
        decreases pods.len() - i,
    {
        proof {
            assert(all.skip(i as int)[0] == pods@[i as int]@);
            assert(all.skip(i as int).skip(1) =~= all.skip(i + 1));
        }
        if has_prefix(&pods[i], &prefix) {
            return copy_text(&pods[i].name);
        }
        i += 1;
    }
    None
}

/// The helper pods of the current user among `pods`: for some user name,
/// what `select_helper_pods` gives for it.
pub fn own_helper_pods(pods: &Vec<PodRef>) -> (out: Vec<PodTarget>)
    ensures
        exists|username: Seq<char>|
            targets_view(out@) == #[trigger] helper_pods_spec(pods_view(pods@), username),
{
    let username = current_username();
    let out = select_helper_pods(pods, username.as_str());
    assert(targets_view(out@) == helper_pods_spec(pods_view(pods@), username@));
    out
}

} // verus!
