//! Service discovery: from the services of a cluster to candidate
//! configurations, by annotation where a service carries one and by its
//! exposed ports where it does not.

use vstd::prelude::*;
use crate::model::{copy_text, text_is, text_of, Config, ConfigView};
use crate::numeric::{
    decimal, format_u64, is_canonical, digits_value, lemma_decimal_parse, parse_i32, parse_i32_spec, parse_u16,
    parse_u16_spec,
};
use crate::text::{
    extend_chars, first_index, from_chars, lemma_first_index, split_chars, split_spec, to_chars,
    trim_chars, trim_spec,
};

verus! {

/// The annotation that lists the forwards of a service.
pub open spec fn configs_annotation() -> Seq<char> {
    "kftray.app/configs"@
}

/// One service as discovery sees it.
#[derive(Clone, Debug, PartialEq, Eq)]
pub struct ServiceInfo {
    /// The service's name.
    pub name: String,
    /// Its annotations: key and value. Where a key stands twice, the first
    /// pair counts.
    pub annotations: Vec<(String, String)>,
    /// Its ports: name and number. Where a name stands twice, the first
    /// pair is the one that a name in an annotation finds.
    pub ports: Vec<(String, i32)>,
}

/// The services of one namespace, or why they could not be listed.
#[derive(Debug, PartialEq, Eq)]
pub struct NamespaceListing {
    pub namespace: String,
    pub services: Result<Vec<ServiceInfo>, String>,
}

/// What the cluster gave when asked for its namespaces and their services.
#[derive(Debug, PartialEq, Eq)]
pub enum ClusterListing {
    /// No client could be built; the text says why.
    ClientFailed(String),
    /// Building a client gave none.
    NoClient,
    /// The namespaces could not be listed; the text says why.
    NamespacesFailed(String),
    /// The namespaces, each with its services, in the order they came.
    Listed(Vec<NamespaceListing>),
}

/// A list of named ports as plain values.
pub open spec fn ports_view(ports: Seq<(String, i32)>) -> Seq<(Seq<char>, i32)> {
    Seq::new(ports.len(), |i: int| (ports[i].0@, ports[i].1))
}

/// A list of annotations as plain values.
pub open spec fn annotations_view(annotations: Seq<(String, String)>) -> Seq<
    (Seq<char>, Seq<char>),
> {
    Seq::new(annotations.len(), |i: int| (annotations[i].0@, annotations[i].1@))
}

/// The number of the first port named `name`.
pub open spec fn lookup_port(ports: Seq<(Seq<char>, i32)>, name: Seq<char>) -> Option<i32>
    decreases ports.len(),
{
    if ports.len() == 0 {
        None
    } else if ports[0].0 == name {
        Some(ports[0].1)
    } else {
        lookup_port(ports.skip(1), name)
    }
}

/// The value of the first annotation with the key `key`.
pub open spec fn lookup_annotation(
    annotations: Seq<(Seq<char>, Seq<char>)>,
    key: Seq<char>,
) -> Option<Seq<char>>
    decreases annotations.len(),
{
    if annotations.len() == 0 {
        None
    } else if annotations[0].0 == key {
        Some(annotations[0].1)
    } else {
        lookup_annotation(annotations.skip(1), key)
    }
}

/// Whether `number` is a port number: from 0 to 65535.
pub open spec fn is_port(number: int) -> bool {
    0 <= number <= 0xffff
}

/// The number that `text` stands for as a target: the number it reads as,
/// else the number of the port it names.
pub open spec fn target_number_spec(text: Seq<char>, ports: Seq<(Seq<char>, i32)>) -> Option<
    int,
> {
    match parse_i32_spec(text) {
        Some(v) => Some(v),
        None => match lookup_port(ports, text) {
            Some(number) => Some(number as int),
            None => None,
        },
    }
}

/// The target port that `text` stands for: the number it reads as, else the
/// number of the port it names, where that number is a port number. A
/// number that is none stands for no port, whether written or named.
pub open spec fn target_port_spec(text: Seq<char>, ports: Seq<(Seq<char>, i32)>) -> Option<int> {
    match target_number_spec(text, ports) {
        Some(number) => if is_port(number) {
            Some(number)
        } else {
            None
        },
        None => None,
    }
}

/// One entry of the annotation, read.
pub struct Entry {
    pub alias: Seq<char>,
    pub local_port: int,
    pub remote_port: int,
}

/// What one entry of the annotation reads as. An entry is
/// `alias-localPort-targetPort`: three parts between two `-`, the second a
/// port number, the third a port number or the name of one of `ports` whose
/// number is a port number. Any other entry is dropped.
pub open spec fn parse_entry_spec(entry: Seq<char>, ports: Seq<(Seq<char>, i32)>) -> Option<
    Entry,
> {
    let parts = split_spec(entry, '-');
    if parts.len() != 3 {
        None
    } else {
        match (parse_u16_spec(parts[1]), target_port_spec(parts[2], ports)) {
            (Some(local), Some(target)) => Some(
                Entry { alias: parts[0], local_port: local, remote_port: target },
            ),
            _ => None,
        }
    }
}

/// How an entry is written: alias, local port and remote port, with a `-`
/// between them.
pub open spec fn format_entry_spec(entry: Entry) -> Seq<char> {
    entry.alias + seq!['-'] + decimal(entry.local_port) + seq!['-'] + decimal(entry.remote_port)
}

/// The configuration that discovery proposes for one forward of a service.
pub open spec fn candidate(
    context: Seq<char>,
    namespace: Seq<char>,
    service: Seq<char>,
    kubeconfig: Option<Seq<char>>,
    alias: Seq<char>,
    local_port: int,
    remote_port: int,
) -> ConfigView {
    ConfigView {
        id: None,
        service: Some(service),
        namespace,
        local_port: Some(local_port),
        remote_port: Some(remote_port),
        context,
        workload_type: Some("service"@),
        protocol: "tcp"@,
        remote_address: None,
        local_address: None,
        alias: Some(alias),
        domain_enabled: None,
        kubeconfig,
        target: None,
    }
}

/// The configurations that the entries `pieces` give, in order; each piece
/// is trimmed before it is read, and a piece that does not read is skipped.
pub open spec fn entries_configs(
    pieces: Seq<Seq<char>>,
    context: Seq<char>,
    namespace: Seq<char>,
    service: Seq<char>,
    ports: Seq<(Seq<char>, i32)>,
    kubeconfig: Option<Seq<char>>,
) -> Seq<ConfigView>
    decreases pieces.len(),
{
    if pieces.len() == 0 {
        Seq::empty()
    } else {
        let before = entries_configs(
            pieces.drop_last(),
            context,
            namespace,
            service,
            ports,
            kubeconfig,
        );
        match parse_entry_spec(trim_spec(pieces.last()), ports) {
            Some(e) => before.push(
                candidate(
                    context,
                    namespace,
                    service,
                    kubeconfig,
                    e.alias,
                    e.local_port,
                    e.remote_port,
                ),
            ),
            None => before,
        }
    }
}

/// The configurations that an annotation gives: one for each of its
/// comma-separated entries that reads, in order.
pub open spec fn parse_configs_spec(
    text: Seq<char>,
    context: Seq<char>,
    namespace: Seq<char>,
    service: Seq<char>,
    ports: Seq<(Seq<char>, i32)>,
    kubeconfig: Option<Seq<char>>,
) -> Seq<ConfigView> {
    entries_configs(split_spec(text, ','), context, namespace, service, ports, kubeconfig)
}

/// The configurations of a service without annotation: one for each port
/// whose number is a port number, in order, forwarding the port to itself
/// under the service's name. A port whose number is none is left out.
pub open spec fn default_configs_spec(
    context: Seq<char>,
    namespace: Seq<char>,
    service: Seq<char>,
    ports: Seq<(Seq<char>, i32)>,
    kubeconfig: Option<Seq<char>>,
) -> Seq<ConfigView>
    decreases ports.len(),
{
    if ports.len() == 0 {
        Seq::empty()
    } else {
        let before = default_configs_spec(
            context,
            namespace,
            service,
            ports.drop_last(),
            kubeconfig,
        );
        let number = ports.last().1 as int;
        if is_port(number) {
            before.push(
                candidate(context, namespace, service, kubeconfig, service, number, number),
            )
        } else {
            before
        }
    }
}

/// The number of the first port named `name`.
pub fn find_port(ports: &Vec<(String, i32)>, name: &str) -> (out: Option<i32>)
    ensures
        out == lookup_port(ports_view(ports@), name@),
{
    let mut i: usize = 0;
    let ghost all = ports_view(ports@);
    proof {
        assert(all.skip(0) =~= all);
    }
    while i < ports.len()
        invariant
            i <= ports.len(),
            all == ports_view(ports@),
            lookup_port(all, name@) == lookup_port(all.skip(i as int), name@),
        decreases ports.len() - i,
    {
        proof {
            assert(all.skip(i as int)[0] == all[i as int]);
            assert(all.skip(i as int).skip(1) =~= all.skip(i + 1));
        }
        if text_is(ports[i].0.as_str(), name) {
            return Some(ports[i].1);
        }
        i += 1;
    }
    None
}

/// The value of the first annotation with the key `key`.
pub fn find_annotation(annotations: &Vec<(String, String)>, key: &str) -> (out: Option<String>)
    ensures
        text_of(out) == lookup_annotation(annotations_view(annotations@), key@),
{
    let mut i: usize = 0;
    let ghost all = annotations_view(annotations@);
    proof {
        assert(all.skip(0) =~= all);
    }
    while i < annotations.len()
        invariant
            i <= annotations.len(),
            all == annotations_view(annotations@),
            lookup_annotation(all, key@) == lookup_annotation(all.skip(i as int), key@),
        decreases annotations.len() - i,
    {
        proof {
            assert(all.skip(i as int)[0] == all[i as int]);
            assert(all.skip(i as int).skip(1) =~= all.skip(i + 1));
        }
        if text_is(annotations[i].0.as_str(), key) {
            return Some(annotations[i].1.clone());
        }
        i += 1;
    }
    None
}

/// `number` as a port, where it is a port number.
pub fn as_port(number: i32) -> (out: Option<u16>)
    ensures
        out.is_some() == is_port(number as int),
        out matches Some(port) ==> port as int == number as int,
{
    if 0 <= number && number <= 0xffff {
        Some(number as u16)
    } else {
        None
    }
}

/// Reads one entry of the annotation, with no white space around it:
/// alias, local port and target port. `None` for an entry that does not
/// read: one that has not three parts, whose local port is no port number,
/// or whose target is neither a port number nor the name of a port with a
/// port number.
pub fn parse_entry(entry: &Vec<char>, ports: &Vec<(String, i32)>) -> (out: Option<
    (String, u16, u16),
>)
    ensures
        out.is_some() == parse_entry_spec(entry@, ports_view(ports@)).is_some(),
        out matches Some(read) ==> parse_entry_spec(entry@, ports_view(ports@)) == Some(
            Entry {
                alias: read.0@,
                local_port: read.1 as int,
                remote_port: read.2 as int,
            },
        ),
{
    let parts = split_chars(entry, '-');
    if parts.len() != 3 {
        return None;
    }
    let local = parse_u16(&parts[1]);
    let number = match parse_i32(&parts[2]) {
        Some(v) => Some(v),
        None => {
            let name = from_chars(&parts[2]);
            find_port(ports, name.as_str())
        },
    };
    let target = match number {
        Some(v) => as_port(v),
        None => None,
    };
    proof {
        let wanted = target_port_spec(parts@[2]@, ports_view(ports@));
        assert(target.is_some() == wanted.is_some());
        assert(target matches Some(port) ==> wanted == Some(port as int));
    }
    match (local, target) {
        (Some(local_port), Some(target_port)) => Some(
            (from_chars(&parts[0]), local_port, target_port),
        ),
        _ => None,
    }
}

/// A configuration that discovery proposes.
fn make_candidate(
    context: &str,
    namespace: &str,
    service: &str,
    kubeconfig: &Option<String>,
    alias: String,
    local_port: u16,
    remote_port: u16,
) -> (out: Config)
    ensures
        out@ == candidate(
            context@,
            namespace@,
            service@,
            text_of(*kubeconfig),
            alias@,
            local_port as int,
            remote_port as int,
        ),
{
    let mut out = Config::empty();
    out.context = String::from_str(context);
    out.namespace = String::from_str(namespace);
    out.service = Some(String::from_str(service));
    out.kubeconfig = copy_text(kubeconfig);
    out.alias = Some(alias);
    out.local_port = Some(local_port);
    out.remote_port = Some(remote_port);
    out.protocol = String::from_str("tcp");
    out.workload_type = Some(String::from_str("service"));
    out
}

/// Reads an annotation: comma-separated entries `alias-localPort-targetPort`,
/// where the target port is a number or the name of one of `ports`. Each
/// entry that reads gives one configuration, in order; the others are
/// skipped without notice.
pub fn parse_configs(
    configs_str: &str,
    context: &str,
    namespace: &str,
    service_name: &str,
    ports: &Vec<(String, i32)>,
    kubeconfig: Option<String>,
) -> (out: Vec<Config>)
    ensures
        crate::model::configs_view(out@) == parse_configs_spec(
            configs_str@,
            context@,
            namespace@,
            service_name@,
            ports_view(ports@),
            text_of(kubeconfig),
        ),
{
    let text = to_chars(configs_str);
    let pieces = split_chars(&text, ',');
    let ghost spec_pieces = split_spec(configs_str@, ',');
    let mut out: Vec<Config> = Vec::new();
    let mut i: usize = 0;
    proof {
        assert(spec_pieces.subrange(0, 0) =~= Seq::<Seq<char>>::empty());
        assert(crate::model::configs_view(out@) =~= Seq::<ConfigView>::empty());
    }
    while i < pieces.len()
        invariant
            i <= pieces.len(),
            pieces@.len() == spec_pieces.len(),
            forall|k: int| 0 <= k < pieces@.len() ==> (#[trigger] pieces@[k])@ == spec_pieces[k],
            crate::model::configs_view(out@) == entries_configs(
                spec_pieces.subrange(0, i as int),
                context@,
                namespace@,
                service_name@,
                ports_view(ports@),
                text_of(kubeconfig),
            ),
        decreases pieces.len() - i,
    {
        let entry = trim_chars(&pieces[i]);
        let ghost upto = spec_pieces.subrange(0, i + 1);
        let ghost before = crate::model::configs_view(out@);
        proof {
            assert(upto.drop_last() =~= spec_pieces.subrange(0, i as int));
            assert(upto.last() == spec_pieces[i as int]);
            assert(entry@ == trim_spec(upto.last()));
        }
        match parse_entry(&entry, ports) {
            Some(read) => {
                let config = make_candidate(
                    context,
                    namespace,
                    service_name,
                    &kubeconfig,
                    read.0,
                    read.1,
                    read.2,
                );
                out.push(config);
                proof {
                    assert(crate::model::configs_view(out@) =~= before.push(config@));
                }
            },
            None => {},
        }
        i += 1;
    }
    proof {
        assert(spec_pieces.subrange(0, pieces.len() as int) =~= spec_pieces);
    }
    out
}

/// The configurations of a service without annotation: one for each port
/// whose number is a port number, in order, forwarding the port to itself
/// under the service's name.
pub fn create_default_configs(
    context: &str,
    namespace: &str,
    service_name: &str,
    ports: &Vec<(String, i32)>,
    kubeconfig: Option<String>,
) -> (out: Vec<Config>)
    ensures
        crate::model::configs_view(out@) == default_configs_spec(
            context@,
            namespace@,
            service_name@,
            ports_view(ports@),
            text_of(kubeconfig),
        ),
{
    let mut out: Vec<Config> = Vec::new();
    let mut i: usize = 0;
    let ghost all = ports_view(ports@);
    proof {
        assert(all.subrange(0, 0) =~= Seq::<(Seq<char>, i32)>::empty());
        assert(crate::model::configs_view(out@) =~= Seq::<ConfigView>::empty());
    }
    while i < ports.len()
        invariant
            i <= ports.len(),
            all == ports_view(ports@),
            crate::model::configs_view(out@) == default_configs_spec(
                context@,
                namespace@,
                service_name@,
                all.subrange(0, i as int),
                text_of(kubeconfig),
            ),
        decreases ports.len() - i,
    {
        proof {
            let upto = all.subrange(0, i + 1);
            assert(upto.drop_last() =~= all.subrange(0, i as int));
            assert(upto.last() == all[i as int]);
        }
        match as_port(ports[i].1) {
            Some(port) => {
                let ghost before = crate::model::configs_view(out@);
                let config = make_candidate(
                    context,
                    namespace,
                    service_name,
                    &kubeconfig,
                    String::from_str(service_name),
                    port,
                    port,
                );
                out.push(config);
                proof {
                    assert(crate::model::configs_view(out@) =~= before.push(config@));
                }
            },
            None => {},
        }
        i += 1;
    }
    proof {
        assert(all.subrange(0, ports.len() as int) =~= all);
    }
    out
}

/// Writes an entry of the annotation: alias, local port and remote port,
/// with a `-` between them.
pub fn format_entry(alias: &str, local_port: u16, remote_port: u16) -> (out: String)
    ensures
        out@ == format_entry_spec(
            Entry {
                alias: alias@,
                local_port: local_port as int,
                remote_port: remote_port as int,
            },
        ),
{
    let mut out = to_chars(alias);
    out.push('-');
    let local = format_u64(local_port as u64);
    extend_chars(&mut out, &local);
    out.push('-');
    let remote = format_u64(remote_port as u64);
    extend_chars(&mut out, &remote);
    from_chars(&out)
}

/// The configurations of one service: those of its annotation where it
/// carries one, else one for each of its ports.
pub open spec fn service_configs_spec(
    service: ServiceInfo,
    context: Seq<char>,
    namespace: Seq<char>,
    kubeconfig: Option<Seq<char>>,
) -> Seq<ConfigView> {
    match lookup_annotation(annotations_view(service.annotations@), configs_annotation()) {
        Some(text) => parse_configs_spec(
            text,
            context,
            namespace,
            service.name@,
            ports_view(service.ports@),
            kubeconfig,
        ),
        None => default_configs_spec(
            context,
            namespace,
            service.name@,
            ports_view(service.ports@),
            kubeconfig,
        ),
    }
}

/// The configurations of the services of one namespace, service after
/// service.
pub open spec fn namespace_configs_spec(
    services: Seq<ServiceInfo>,
    context: Seq<char>,
    namespace: Seq<char>,
    kubeconfig: Option<Seq<char>>,
) -> Seq<ConfigView>
    decreases services.len(),
{
    if services.len() == 0 {
        Seq::empty()
    } else {
        namespace_configs_spec(services.drop_last(), context, namespace, kubeconfig)
            + service_configs_spec(services.last(), context, namespace, kubeconfig)
    }
}

/// The configurations of a cluster: those of each namespace whose services
/// could be listed, namespace after namespace. A namespace that could not be
/// listed contributes nothing.
pub open spec fn listing_configs_spec(
    listings: Seq<NamespaceListing>,
    context: Seq<char>,
    kubeconfig: Option<Seq<char>>,
) -> Seq<ConfigView>
    decreases listings.len(),
{
    if listings.len() == 0 {
        Seq::empty()
    } else {
        let before = listing_configs_spec(listings.drop_last(), context, kubeconfig);
        match listings.last().services {
            Ok(services) => before + namespace_configs_spec(
                services@,
                context,
                listings.last().namespace@,
                kubeconfig,
            ),
            Err(_) => before,
        }
    }
}

/// Moves the configurations of `more` to the end of `out`.
fn append_configs(out: &mut Vec<Config>, more: Vec<Config>)
    ensures
        crate::model::configs_view(final(out)@) == crate::model::configs_view(old(out)@)
            + crate::model::configs_view(more@),
{
    let mut more = more;
    let ghost added = more@;
    out.append(&mut more);
    assert(crate::model::configs_view(out@) =~= crate::model::configs_view(old(out)@)
        + crate::model::configs_view(added));
}

/// The configurations of the services of one namespace.
pub fn namespace_configs(
    services: &Vec<ServiceInfo>,
    context: &str,
    namespace: &str,
    kubeconfig: &Option<String>,
) -> (out: Vec<Config>)
    ensures
        crate::model::configs_view(out@) == namespace_configs_spec(
            services@,
            context@,
            namespace@,
            text_of(*kubeconfig),
        ),
{
    let mut out: Vec<Config> = Vec::new();
    let mut i: usize = 0;
    proof {
        assert(services@.subrange(0, 0) =~= Seq::<ServiceInfo>::empty());
        assert(crate::model::configs_view(out@) =~= Seq::<ConfigView>::empty());
    }
    while i < services.len()
        invariant
            i <= services.len(),
            crate::model::configs_view(out@) == namespace_configs_spec(
                services@.subrange(0, i as int),
                context@,
                namespace@,
                text_of(*kubeconfig),
            ),
        decreases services.len() - i,
    {
        let service = &services[i];
        proof {
            let upto = services@.subrange(0, i + 1);
            assert(upto.drop_last() =~= services@.subrange(0, i as int));
            assert(upto.last() == services@[i as int]);
        }
        let found = match find_annotation(&service.annotations, "kftray.app/configs") {
            Some(text) => parse_configs(
                text.as_str(),
                context,
                namespace,
                service.name.as_str(),
                &service.ports,
                copy_text(kubeconfig),
            ),
            None => create_default_configs(
                context,
                namespace,
                service.name.as_str(),
                &service.ports,
                copy_text(kubeconfig),
            ),
        };
        append_configs(&mut out, found);
        i += 1;
    }
    proof {
        assert(services@.subrange(0, services.len() as int) =~= services@);
    }
    out
}

/// Turns what the cluster listed into candidate configurations.
///
/// Where no client could be built or the namespaces could not be listed, the
/// call fails with that error. Otherwise it succeeds with the configurations
/// of every namespace whose services were listed; a namespace whose listing
/// failed is left out and does not fail the call.
pub fn retrieve_service_configs(
    context: &str,
    kubeconfig: Option<String>,
    listing: ClusterListing,
) -> (out: Result<Vec<Config>, String>)
    ensures
        match listing {
            ClusterListing::ClientFailed(why) => out matches Err(e) && e@ == why@,
            ClusterListing::NoClient => out matches Err(e) && e@ == "Client not created"@,
            ClusterListing::NamespacesFailed(why) => out matches Err(e) && e@ == why@,
            ClusterListing::Listed(listings) => out matches Ok(configs)
                && crate::model::configs_view(configs@) == listing_configs_spec(
                listings@,
                context@,
                text_of(kubeconfig),
            ),
        },
{
    match listing {
        ClusterListing::ClientFailed(why) => Err(why),
        ClusterListing::NoClient => Err(String::from_str("Client not created")),
        ClusterListing::NamespacesFailed(why) => Err(why),
        ClusterListing::Listed(listings) => {
            let mut out: Vec<Config> = Vec::new();
            let mut i: usize = 0;
            proof {
                assert(listings@.subrange(0, 0) =~= Seq::<NamespaceListing>::empty());
                assert(crate::model::configs_view(out@) =~= Seq::<ConfigView>::empty());
            }
            while i < listings.len()
                invariant
                    i <= listings.len(),
                    crate::model::configs_view(out@) == listing_configs_spec(
                        listings@.subrange(0, i as int),
                        context@,
                        text_of(kubeconfig),
                    ),
                decreases listings.len() - i,
            {
                proof {
                    let upto = listings@.subrange(0, i + 1);
                    assert(upto.drop_last() =~= listings@.subrange(0, i as int));
                    assert(upto.last() == listings@[i as int]);
                }
                match &listings[i].services {
                    Ok(services) => {
                        let found = namespace_configs(
                            services,
                            context,
                            listings[i].namespace.as_str(),
                            &kubeconfig,
                        );
                        append_configs(&mut out, found);
                    },
                    Err(_) => {},
                }
                i += 1;
            }
            proof {
                assert(listings@.subrange(0, listings.len() as int) =~= listings@);
            }
            Ok(out)
        },
    }
}

/// Every text splits into at least one piece.
pub proof fn lemma_split_nonempty(s: Seq<char>, c: char)
    ensures
        split_spec(s, c).len() >= 1,
        split_spec(s, c).len() == 1 ==> split_spec(s, c) == seq![s] && !s.contains(c),
    decreases s.len(),
{
    lemma_first_index(s, c);
    let i = first_index(s, c);
    if 0 <= i < s.len() {
        lemma_split_nonempty(s.skip(i + 1), c);
    }
}

/// A text that splits into three pieces is those pieces with the delimiter
/// between them.
pub proof fn lemma_three_pieces(s: Seq<char>, c: char)
    requires
        split_spec(s, c).len() == 3,
    ensures
        s == split_spec(s, c)[0] + seq![c] + split_spec(s, c)[1] + seq![c] + split_spec(s, c)[2],
{
    lemma_first_index(s, c);
    lemma_split_nonempty(s, c);
    let i = first_index(s, c);
    let rest = s.skip(i + 1);
    lemma_first_index(rest, c);
    lemma_split_nonempty(rest, c);
    let j = first_index(rest, c);
    let last = rest.skip(j + 1);
    lemma_split_nonempty(last, c);
    assert(split_spec(s, c) == seq![s.subrange(0, i)] + split_spec(rest, c));
    assert(split_spec(rest, c).len() == 2);
    assert(split_spec(rest, c) == seq![rest.subrange(0, j)] + split_spec(last, c));
    assert(split_spec(last, c).len() == 1);
    assert(split_spec(s, c)[0] == s.subrange(0, i));
    assert(split_spec(s, c)[1] == split_spec(rest, c)[0]);
    assert(split_spec(s, c)[2] == split_spec(rest, c)[1]);
    assert(split_spec(rest, c)[1] == split_spec(last, c)[0]);
    assert(s =~= s.subrange(0, i) + seq![c] + rest.subrange(0, j) + seq![c] + last);
}

/// Reading an entry and writing it again gives the entry back, for an entry
/// of the grammar: three parts between two `-`, of which the second and the
/// third are port numbers from 0 to 65535 in decimal, without sign and
/// without leading zeros.
pub proof fn lemma_entry_round_trip(entry: Seq<char>, ports: Seq<(Seq<char>, i32)>)
    requires
        split_spec(entry, '-').len() == 3,
        is_canonical(split_spec(entry, '-')[1]),
        digits_value(split_spec(entry, '-')[1]) <= 0xffff,
        is_canonical(split_spec(entry, '-')[2]),
        digits_value(split_spec(entry, '-')[2]) <= 0xffff,
    ensures
        parse_entry_spec(entry, ports) matches Some(e) && format_entry_spec(e) == entry,
{
    let parts = split_spec(entry, '-');
    crate::numeric::lemma_digits_value_nonneg(parts[1]);
    crate::numeric::lemma_digits_value_nonneg(parts[2]);
    lemma_decimal_parse(parts[1], false, 0, 0xffff);
    lemma_decimal_parse(parts[2], true, -0x8000_0000, 0x7fff_ffff);
    lemma_three_pieces(entry, '-');
}

/// An entry whose third part is no number stands for the port that the part
/// names, where that port has a port number; it is dropped where the part
/// names no port, and where the port it names has a number that is none.
pub proof fn lemma_named_target(entry: Seq<char>, ports: Seq<(Seq<char>, i32)>)
    requires
        split_spec(entry, '-').len() == 3,
        parse_u16_spec(split_spec(entry, '-')[1]).is_some(),
        parse_i32_spec(split_spec(entry, '-')[2]).is_none(),
    ensures
        match lookup_port(ports, split_spec(entry, '-')[2]) {
            Some(number) => if is_port(number as int) {
                parse_entry_spec(entry, ports) matches Some(e) && e.remote_port == number as int
                    && e.alias == split_spec(entry, '-')[0]
            } else {
                parse_entry_spec(entry, ports).is_none()
            },
            None => parse_entry_spec(entry, ports).is_none(),
        },
{
}

/// Every configuration that an entry gives has ports that fit 16 bits: an
/// entry whose target is a number above 65535 or below 0 is dropped.
pub proof fn lemma_entry_ports_in_range(entry: Seq<char>, ports: Seq<(Seq<char>, i32)>)
    ensures
        parse_entry_spec(entry, ports) matches Some(e) ==> is_port(e.local_port) && is_port(
            e.remote_port,
        ),
        split_spec(entry, '-').len() == 3 && (parse_i32_spec(split_spec(entry, '-')[2]) matches Some(
            v,
        ) && !is_port(v)) ==> parse_entry_spec(entry, ports).is_none(),
{
}

/// An annotation that is one entry of the grammar, with no comma in it and
/// no white space around it, gives exactly one configuration, and writing
/// the alias and the ports of that configuration as an entry gives the
/// annotation back.
pub proof fn lemma_single_entry_annotation(
    text: Seq<char>,
    context: Seq<char>,
    namespace: Seq<char>,
    service: Seq<char>,
    ports: Seq<(Seq<char>, i32)>,
    kubeconfig: Option<Seq<char>>,
)
    requires
        !text.contains(','),
        text.len() > 0 ==> !crate::text::whitespace(text[0]) && !crate::text::whitespace(
            text.last(),
        ),
        split_spec(text, '-').len() == 3,
        is_canonical(split_spec(text, '-')[1]),
        digits_value(split_spec(text, '-')[1]) <= 0xffff,
        is_canonical(split_spec(text, '-')[2]),
        digits_value(split_spec(text, '-')[2]) <= 0xffff,
    ensures
        parse_configs_spec(text, context, namespace, service, ports, kubeconfig).len() == 1,
        ({
            let c = parse_configs_spec(text, context, namespace, service, ports, kubeconfig)[0];
            c.alias.is_some() && c.local_port.is_some() && c.remote_port.is_some()
                && format_entry_spec(
                Entry {
                    alias: c.alias.unwrap(),
                    local_port: c.local_port.unwrap(),
                    remote_port: c.remote_port.unwrap(),
                },
            ) == text
        }),
{
    lemma_first_index(text, ',');
    let pieces = split_spec(text, ',');
    assert(pieces == seq![text]);
    assert(pieces.drop_last() =~= Seq::<Seq<char>>::empty());
    assert(pieces.last() == text);
    crate::text::lemma_trim_of_tight(text);
    lemma_entry_round_trip(text, ports);
    let before = entries_configs(pieces.drop_last(), context, namespace, service, ports, kubeconfig);
    assert(before.len() == 0);
}

/// Three texts without the delimiter, joined by it, split into themselves.
pub proof fn lemma_split_joined(a: Seq<char>, b: Seq<char>, c: Seq<char>, delimiter: char)
    requires
        !a.contains(delimiter),
        !b.contains(delimiter),
        !c.contains(delimiter),
    ensures
        split_spec(a + seq![delimiter] + b + seq![delimiter] + c, delimiter) == seq![a, b, c],
{
    let whole = a + seq![delimiter] + b + seq![delimiter] + c;
    let rest = b + seq![delimiter] + c;
    assert forall|j: int| 0 <= j < a.len() implies whole[j] != delimiter by {
        assert(whole[j] == a[j]);
        assert(a.contains(a[j]));
    }
    assert(whole[a.len() as int] == delimiter);
    crate::text::lemma_first_index_is(whole, delimiter, a.len() as int);
    assert(whole.subrange(0, a.len() as int) =~= a);
    assert(whole.skip(a.len() as int + 1) =~= rest);
    assert forall|j: int| 0 <= j < b.len() implies rest[j] != delimiter by {
        assert(rest[j] == b[j]);
        assert(b.contains(b[j]));
    }
    assert(rest[b.len() as int] == delimiter);
    crate::text::lemma_first_index_is(rest, delimiter, b.len() as int);
    assert(rest.subrange(0, b.len() as int) =~= b);
    assert(rest.skip(b.len() as int + 1) =~= c);
    lemma_first_index(c, delimiter);
    assert(split_spec(c, delimiter) == seq![c]);
    assert(split_spec(rest, delimiter) =~= seq![b, c]);
    assert(split_spec(whole, delimiter) =~= seq![a, b, c]);
}

/// The decimal text of a number from 0 up holds no `-`.
pub proof fn lemma_decimal_has_no_dash(n: int)
    requires
        0 <= n,
    ensures
        !decimal(n).contains('-'),
{
    let s = decimal(n);
    crate::numeric::lemma_digits_of_value(n as nat);
    if s.contains('-') {
        let k = choose|k: int| 0 <= k < s.len() && s[k] == '-';
        assert(crate::numeric::is_digit(s[k]));
    }
}

/// Writing an entry and reading it gives the entry back, and an entry
/// written with a target above 65535 is dropped: for an alias without `-`,
/// a local port from 0 to 65535 and a target from 0 up that fits 32 bits,
/// the text `alias-local-target` reads as the three of them where the target
/// is a port number, and does not read where it is none.
pub proof fn lemma_written_entry_reads(
    alias: Seq<char>,
    local: int,
    target: int,
    ports: Seq<(Seq<char>, i32)>,
)
    requires
        !alias.contains('-'),
        is_port(local),
        0 <= target <= 0x7fff_ffff,
    ensures
        parse_entry_spec(
            format_entry_spec(Entry { alias, local_port: local, remote_port: target }),
            ports,
        ) == if is_port(target) {
            Some(Entry { alias, local_port: local, remote_port: target })
        } else {
            None
        },
{
    lemma_decimal_has_no_dash(local);
    lemma_decimal_has_no_dash(target);
    lemma_split_joined(alias, decimal(local), decimal(target), '-');
    crate::numeric::lemma_parse_decimal(local, false, 0, 0xffff);
    crate::numeric::lemma_parse_decimal(target, true, -0x8000_0000, 0x7fff_ffff);
}

} // verus!
