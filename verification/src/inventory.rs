//! Inventory-facing records — containers, images, volumes, networks,
//! terminal commands — and the small derivations the listing layer
//! needs: display names, compose-label extraction, command-line
//! splitting, and system-wide summary counts.  The records themselves
//! are plain data; the runtime calls that fill them stay outside.

use std::collections::HashMap;
use vstd::prelude::*;
use crate::text::{count_while, lemma_count_while, spec_fields, split_fields, str_eq};

verus! {

/// One listed container.
#[derive(Debug)]
pub struct ContainerInfo {
    pub id: String,
    pub name: String,
    pub image: String,
    pub status: String,
    pub state: String,
    pub created: i64,
    pub ports: Vec<PortInfo>,
    pub project: Option<String>,
    pub service: Option<String>,
    pub labels: HashMap<String, String>,
}

/// One published port of a container.
#[derive(Debug, Clone)]
pub struct PortInfo {
    pub private_port: u16,
    pub public_port: Option<u16>,
    pub protocol: String,
}

/// One listed image.
#[derive(Debug)]
pub struct ImageInfo {
    pub id: String,
    pub repo_tags: Vec<String>,
    pub repo_digests: Vec<String>,
    pub created: i64,
    pub size: i64,
    pub virtual_size: i64,
    pub shared_size: i64,
    pub labels: HashMap<String, String>,
}

/// One listed volume, with the size recovered from the diagnostic
/// report.
#[derive(Debug)]
pub struct VolumeInfo {
    pub name: String,
    pub driver: String,
    pub mountpoint: String,
    pub created_at: Option<String>,
    pub labels: HashMap<String, String>,
    pub options: HashMap<String, String>,
    pub scope: String,
    pub size: u64,
}

/// One listed network.
#[derive(Debug)]
pub struct NetworkInfo {
    pub id: String,
    pub name: String,
    pub driver: String,
    pub scope: String,
    pub created: Option<String>,
    pub internal: bool,
    pub attachable: bool,
    pub ingress: bool,
    pub ipam: NetworkIpam,
    pub containers: HashMap<String, NetworkContainer>,
    pub options: HashMap<String, String>,
    pub labels: HashMap<String, String>,
}

/// Address management of one network.
#[derive(Debug)]
pub struct NetworkIpam {
    pub driver: Option<String>,
    pub config: Vec<IpamConfig>,
    pub options: HashMap<String, String>,
}

/// One address range of a network.
#[derive(Debug, Clone)]
pub struct IpamConfig {
    pub subnet: Option<String>,
    pub gateway: Option<String>,
    pub ip_range: Option<String>,
}

/// One endpoint attached to a network.
#[derive(Debug, Clone)]
pub struct NetworkContainer {
    pub name: Option<String>,
    pub endpoint_id: Option<String>,
    pub mac_address: Option<String>,
    pub ipv4_address: Option<String>,
    pub ipv6_address: Option<String>,
}

/// A shell command split into executable and arguments.
#[derive(Debug)]
pub struct TerminalCommand {
    pub command: String,
    pub args: Vec<String>,
    pub working_dir: Option<String>,
}

/// What an executed command printed and how it exited.
#[derive(Debug)]
pub struct TerminalOutput {
    pub stdout: String,
    pub stderr: String,
    pub exit_code: Option<i32>,
    pub success: bool,
}

/// Runtime-wide object counts.
#[derive(Debug, Clone, PartialEq, Eq, Structural)]
pub struct DockerSystemInfo {
    pub containers_running: usize,
    pub containers_stopped: usize,
    pub containers_total: usize,
    pub images_total: usize,
    pub volumes_total: usize,
    pub networks_total: usize,
}

/// A name with its leading slashes removed, as the runtime prefixes
/// container names with one.
pub open spec fn spec_strip_slashes(n: Seq<char>) -> Seq<char> {
    n.skip(count_while(n, |c: char| c == '/'))
}

/// Copy of `name` without leading slashes.
pub fn strip_leading_slashes(name: &str) -> (r: String)
    ensures
        r@ == spec_strip_slashes(name@),
{
    let n = name.unicode_len();
    let mut lo: usize = 0;
    while lo < n && name.get_char(lo) == '/'
        invariant
            lo <= n,
            n == name@.len(),
            forall|i: int| 0 <= i < lo ==> name@[i] == '/',
        decreases n - lo,
    {
        lo = lo + 1;
    }
    proof {
        lemma_count_while(name@, |c: char| c == '/', lo as int);
        assert(spec_strip_slashes(name@) =~= name@.subrange(lo as int, n as int));
    }
    name.substring_char(lo, n).to_owned()
}

/// The display name of a listed container: its first reported name
/// without the leading slash, or `unnamed` when none was reported.
pub open spec fn spec_display_name(names: Seq<Seq<char>>) -> Seq<char> {
    if names.len() == 0 {
        "unnamed"@
    } else {
        spec_strip_slashes(names[0])
    }
}

/// Pick the display name out of a container's reported name list.
pub fn container_display_name(names: &Vec<String>) -> (r: String)
    ensures
        r@ == spec_display_name(names.deep_view()),
{
    if names.len() == 0 {
        String::from_str("unnamed")
    } else {
        strip_leading_slashes(names[0].as_str())
    }
}

/// The value of the first label pair with the given key.
pub open spec fn spec_label_lookup(labels: Seq<(Seq<char>, Seq<char>)>, key: Seq<char>) -> Option<
    Seq<char>,
>
    decreases labels.len(),
{
    if labels.len() == 0 {
        None
    } else if labels[0].0 == key {
        Some(labels[0].1)
    } else {
        spec_label_lookup(labels.drop_first(), key)
    }
}

/// Look a key up in a list of label pairs.
pub fn label_value(labels: &Vec<(String, String)>, key: &str) -> (r: Option<String>)
    ensures
        match r {
            Some(v) => spec_label_lookup(labels.deep_view(), key@) == Some(v@),
            None => spec_label_lookup(labels.deep_view(), key@) is None,
        },
{
    let ghost all = labels.deep_view();
    let mut i: usize = 0;
    proof {
        assert(all.skip(0) =~= all);
    }
    while i < labels.len()
        invariant
            i <= labels.len(),
            all == labels.deep_view(),
            spec_label_lookup(all, key@) == spec_label_lookup(all.skip(i as int), key@),
        decreases labels.len() - i,
    {
        proof {
            assert(all.skip(i as int)[0] == all[i as int]);
            assert(all.skip(i as int).drop_first() =~= all.skip(i + 1));
        }
        if str_eq(labels[i].0.as_str(), key) {
            return Some(labels[i].1.clone());
        }
        i = i + 1;
    }
    proof {
        assert(all.skip(labels@.len() as int) =~= Seq::<(Seq<char>, Seq<char>)>::empty());
    }
    None
}

/// The compose project a container belongs to, read from its labels:
/// the `com.docker.compose.project` label, or failing that the
/// `com.docker.compose.project.name` label.
pub open spec fn spec_compose_project(labels: Seq<(Seq<char>, Seq<char>)>) -> Option<Seq<char>> {
    match spec_label_lookup(labels, "com.docker.compose.project"@) {
        Some(v) => Some(v),
        None => spec_label_lookup(labels, "com.docker.compose.project.name"@),
    }
}

/// Extract the compose project name from a container's label pairs.
pub fn compose_project(labels: &Vec<(String, String)>) -> (r: Option<String>)
    ensures
        match r {
            Some(v) => spec_compose_project(labels.deep_view()) == Some(v@),
            None => spec_compose_project(labels.deep_view()) is None,
        },
{
    match label_value(labels, "com.docker.compose.project") {
        Some(v) => Some(v),
        None => label_value(labels, "com.docker.compose.project.name"),
    }
}

/// The compose service a container belongs to, read from its labels.
pub open spec fn spec_compose_service(labels: Seq<(Seq<char>, Seq<char>)>) -> Option<Seq<char>> {
    spec_label_lookup(labels, "com.docker.compose.service"@)
}

/// Extract the compose service name from a container's label pairs.
pub fn compose_service(labels: &Vec<(String, String)>) -> (r: Option<String>)
    ensures
        match r {
            Some(v) => spec_compose_service(labels.deep_view()) == Some(v@),
            None => spec_compose_service(labels.deep_view()) is None,
        },
{
    label_value(labels, "com.docker.compose.service")
}

/// How many of the listed containers report the `running` state.
pub open spec fn spec_running_count(s: Seq<ContainerInfo>) -> nat
    decreases s.len(),
{
    if s.len() == 0 {
        0
    } else {
        spec_running_count(s.drop_last()) + if s.last().state@ == "running"@ {
            1 as nat
        } else {
            0 as nat
        }
    }
}

/// Summarize the runtime's inventory: containers split into running
/// and stopped by their reported state, and the plain totals of the
/// other object kinds.
pub fn summarize_system(
    containers: &Vec<ContainerInfo>,
    images_total: usize,
    volumes_total: usize,
    networks_total: usize,
) -> (r: DockerSystemInfo)
    ensures
        r.containers_total == containers@.len(),
        r.containers_running == spec_running_count(containers@),
        r.containers_stopped == containers@.len() - spec_running_count(containers@),
        r.images_total == images_total,
        r.volumes_total == volumes_total,
        r.networks_total == networks_total,
{
    let mut running: usize = 0;
    let mut i: usize = 0;
    proof {
        assert(containers@.take(0) =~= Seq::<ContainerInfo>::empty());
    }
    while i < containers.len()
        invariant
            i <= containers.len(),
            running == spec_running_count(containers@.take(i as int)),
            running <= i,
        decreases containers.len() - i,
    {
        proof {
            assert(containers@.take(i + 1).drop_last() =~= containers@.take(i as int));
            assert(containers@.take(i + 1).last() == containers@[i as int]);
        }
        if str_eq(containers[i].state.as_str(), "running") {
            running = running + 1;
        }
        i = i + 1;
    }
    proof {
        assert(containers@.take(containers@.len() as int) =~= containers@);
    }
    DockerSystemInfo {
        containers_running: running,
        containers_stopped: containers.len() - running,
        containers_total: containers.len(),
        images_total,
        volumes_total,
        networks_total,
    }
}

/// Split one command line into the command and its arguments at
/// whitespace.  A line with no fields is no command.
pub fn parse_command_line(line: &str) -> (r: Option<TerminalCommand>)
    ensures
        spec_fields(line@).len() == 0 <==> r is None,
        r matches Some(tc) ==> {
            &&& tc.command@ == spec_fields(line@)[0]
            &&& tc.args.deep_view() == spec_fields(line@).drop_first()
            &&& tc.working_dir is None
        },
{
    let fields = split_fields(line);
    if fields.len() == 0 {
        return None;
    }
    let ghost fs = spec_fields(line@);
    let command = fields[0].clone();
    let mut args: Vec<String> = Vec::new();
    let mut i: usize = 1;
    proof {
        assert(args.deep_view() =~= fs.subrange(1, 1));
    }
    while i < fields.len()
        invariant
            1 <= i <= fields.len(),
            fields.deep_view() == fs,
            args.deep_view() == fs.subrange(1, i as int),
        decreases fields.len() - i,
    {
        let ghost prev = args.deep_view();
        let cloned = fields[i].clone();
        proof {
            assert(cloned@ == fs[i as int]);
        }
        args.push(cloned);
        proof {
            assert(args.deep_view() =~= prev.push(fs[i as int]));
            assert(prev.push(fs[i as int]) =~= fs.subrange(1, i + 1));
        }
        i = i + 1;
    }
    proof {
        assert(fs.subrange(1, fs.len() as int) =~= fs.drop_first());
    }
    Some(TerminalCommand { command, args, working_dir: None })
}

} // verus!
