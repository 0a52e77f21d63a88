//! Planning a container creation: normalize the image reference, turn
//! `host:container` port strings into binding and exposure maps, carry bind
//! mounts and environment through verbatim, and deduplicate the engine's
//! pull-progress chatter so each layer's identical status lines are shown
//! once.
use vstd::prelude::*;

use crate::keyed::{
    keys_unique, lemma_keys_unique_push, lemma_keys_unique_update, lemma_map_of_absent,
    lemma_map_of_index, lemma_map_of_push, lemma_map_of_update, map_of,
};
use crate::models::{
    clone_string_vec, ContainerConfig, HostSettings, PortBinding, RuntimeConfig, RuntimeConfigView,
};
use crate::strutil::{concat_strs, contains_char, contains_substr, has_substr, split_once_char};

verus! {

/// An image reference with a tag: the reference itself when it already
/// carries a colon, else the reference with the default `latest` tag.
pub open spec fn spec_normalize_image(s: Seq<char>) -> Seq<char> {
    if s.contains(':') {
        s
    } else {
        s + ":latest"@
    }
}

/// Normalize an image reference to include a tag.
pub fn normalize_image(image: &str) -> (r: String)
    ensures
        r@ == spec_normalize_image(image@),
{
    if contains_char(image, ':') {
        image.to_owned()
    } else {
        concat_strs(image, ":latest")
    }
}

/// Split at the first occurrence of `c`: what stands before it and what
/// stands after it, or nothing when `c` does not occur.
pub open spec fn spec_split_first(s: Seq<char>, c: char) -> Option<(Seq<char>, Seq<char>)>
    decreases s.len(),
{
    if s.len() == 0 {
        None
    } else if s.first() == c {
        Some((Seq::empty(), s.drop_first()))
    } else {
        match spec_split_first(s.drop_first(), c) {
            Some(p) => Some((seq![s.first()] + p.0, p.1)),
            None => None,
        }
    }
}

pub proof fn lemma_split_first_at(s: Seq<char>, c: char, i: int)
    requires
        0 <= i < s.len(),
        s[i] == c,
        forall|j: int| 0 <= j < i ==> s[j] != c,
    ensures
        spec_split_first(s, c) == Some((s.subrange(0, i), s.subrange(i + 1, s.len() as int))),
    decreases i,
{
    if i == 0 {
        assert(s.subrange(0, 0) =~= Seq::<char>::empty());
        assert(s.subrange(1, s.len() as int) =~= s.drop_first());
    } else {
        assert(s.first() != c);
        lemma_split_first_at(s.drop_first(), c, i - 1);
        assert(s.drop_first().subrange(0, i - 1) =~= s.subrange(1, i));
        assert(s.drop_first().subrange(i, s.len() - 1) =~= s.subrange(i + 1, s.len() as int));
        assert(seq![s.first()] + s.subrange(1, i) =~= s.subrange(0, i));
    }
}

pub proof fn lemma_split_first_none(s: Seq<char>, c: char)
    requires
        forall|j: int| 0 <= j < s.len() ==> s[j] != c,
    ensures
        spec_split_first(s, c) is None,
    decreases s.len(),
{
    if s.len() > 0 {
        lemma_split_first_none(s.drop_first(), c);
    }
}

/// The `host:container` pairs among the given port strings, in order; a
/// string without a colon contributes nothing.
pub open spec fn spec_port_pairs(ports: Seq<Seq<char>>) -> Seq<(Seq<char>, Seq<char>)>
    decreases ports.len(),
{
    if ports.len() == 0 {
        Seq::empty()
    } else {
        spec_port_pairs(ports.drop_last()) + (match spec_split_first(ports.last(), ':') {
            Some(p) => seq![p],
            None => Seq::empty(),
        })
    }
}

/// Everything a create call needs, computed from the request alone: the
/// name, the normalized image, the port bindings and exposures derived from
/// the `host:container` strings, and the mounts and environment verbatim.
pub struct CreatePlan {
    pub name: String,
    pub image: String,
    pub port_bindings: Vec<PortBinding>,
    pub exposed_ports: Vec<String>,
    pub binds: Vec<String>,
    pub env: Vec<String>,
}

/// Plan a container creation from the raw request.
pub fn plan_create(
    name: &str,
    image: &str,
    ports: &Vec<String>,
    mounts: &Vec<String>,
    env: &Vec<String>,
) -> (r: CreatePlan)
    ensures
        r.name@ == name@,
        r.image@ == spec_normalize_image(image@),
        ({
            let pairs = spec_port_pairs(ports.deep_view());
            &&& r.port_bindings.deep_view().len() == pairs.len()
            &&& forall|i: int|
                0 <= i < pairs.len() ==> (#[trigger] r.port_bindings.deep_view()[i]).host_port
                    == pairs[i].0
            &&& forall|i: int|
                0 <= i < pairs.len() ==> (#[trigger] r.port_bindings.deep_view()[i]).container_port
                    == pairs[i].1 + "/tcp"@
            &&& forall|i: int|
                0 <= i < pairs.len() ==> (#[trigger] r.port_bindings.deep_view()[i]).host_ip
                    == "0.0.0.0"@
            &&& r.exposed_ports.deep_view().len() == pairs.len()
            &&& forall|i: int|
                0 <= i < pairs.len() ==> #[trigger] r.exposed_ports.deep_view()[i] == pairs[i].1
                    + "/tcp"@
        }),
        r.binds.deep_view() == mounts.deep_view(),
        r.env.deep_view() == env.deep_view(),
{
    let mut bindings: Vec<PortBinding> = Vec::new();
    let mut exposed: Vec<String> = Vec::new();
    let mut i: usize = 0;
    while i < ports.len()
        invariant
            i <= ports@.len(),
            ({
                let pairs = spec_port_pairs(ports.deep_view().take(i as int));
                &&& bindings.deep_view().len() == pairs.len()
                &&& forall|j: int|
                    0 <= j < pairs.len() ==> (#[trigger] bindings.deep_view()[j]).host_port
                        == pairs[j].0
                &&& forall|j: int|
                    0 <= j < pairs.len() ==> (#[trigger] bindings.deep_view()[j]).container_port
                        == pairs[j].1 + "/tcp"@
                &&& forall|j: int|
                    0 <= j < pairs.len() ==> (#[trigger] bindings.deep_view()[j]).host_ip
                        == "0.0.0.0"@
                &&& exposed.deep_view().len() == pairs.len()
                &&& forall|j: int|
                    0 <= j < pairs.len() ==> #[trigger] exposed.deep_view()[j] == pairs[j].1
                        + "/tcp"@
            }),
        decreases ports@.len() - i,
    {
        let ghost prefix = ports.deep_view().take(i as int);
        let ghost old_pairs = spec_port_pairs(prefix);
        let ghost bdv = bindings.deep_view();
        let ghost edv = exposed.deep_view();
        match split_once_char(ports[i].as_str(), ':') {
            Some(pair) => {
                proof {
                    let k = choose|k: int|
                        {
                            &&& 0 <= k < ports@[i as int]@.len()
                            &&& ports@[i as int]@[k] == ':'
                            &&& (forall|j: int| 0 <= j < k ==> ports@[i as int]@[j] != ':')
                            &&& pair.0@ == ports@[i as int]@.subrange(0, k)
                            &&& pair.1@ == ports@[i as int]@.subrange(
                                k + 1,
                                ports@[i as int]@.len() as int,
                            )
                        };
                    lemma_split_first_at(ports@[i as int]@, ':', k);
                }
                let ghost p0 = pair.0@;
                let ghost p1 = pair.1@;
                proof {
                    assert(spec_split_first(ports@[i as int]@, ':') == Some((p0, p1)));
                }
                let key = concat_strs(pair.1.as_str(), "/tcp");
                let binding = PortBinding {
                    container_port: key.clone(),
                    host_ip: String::from_str("0.0.0.0"),
                    host_port: pair.0,
                };
                proof {
                    assert(binding@.host_port == p0);
                    assert(binding@.container_port == p1 + "/tcp"@);
                    assert(binding@.host_ip == "0.0.0.0"@);
                }
                let ghost bview = binding@;
                let ghost kview = key@;
                bindings.push(binding);
                exposed.push(key);
                i = i + 1;
                proof {
                    let stepped = ports.deep_view().take(i as int);
                    assert(stepped.drop_last() =~= prefix);
                    assert(stepped.last() == ports.deep_view()[i - 1]);
                    assert(ports.deep_view()[i - 1] == ports@[i - 1]@);
                    assert(spec_port_pairs(stepped) =~= old_pairs.push((p0, p1)));
                    assert(bindings.deep_view() =~= bdv.push(bview));
                    assert(exposed.deep_view() =~= edv.push(kview));
                }
            },
            None => {
                proof {
                    lemma_split_first_none(ports@[i as int]@, ':');
                }
                i = i + 1;
                proof {
                    let stepped = ports.deep_view().take(i as int);
                    assert(stepped.drop_last() =~= prefix);
                    assert(stepped.last() == ports.deep_view()[i - 1]);
                    assert(ports.deep_view()[i - 1] == ports@[i - 1]@);
                    assert(spec_port_pairs(stepped) =~= old_pairs);
                }
            },
        }
    }
    proof {
        assert(ports.deep_view().take(ports@.len() as int) =~= ports.deep_view());
    }
    CreatePlan {
        name: name.to_owned(),
        image: normalize_image(image),
        port_bindings: bindings,
        exposed_ports: exposed,
        binds: clone_string_vec(mounts),
        env: clone_string_vec(env),
    }
}

/// The process-level snapshot a planned create carries: the requested
/// environment and exposed ports; everything else unset until the engine
/// reports it.
pub open spec fn spec_planned_runtime(
    env: Seq<Seq<char>>,
    exposed: Seq<Seq<char>>,
) -> RuntimeConfigView {
    RuntimeConfigView {
        hostname: None,
        domainname: None,
        user: None,
        attach_stdin: None,
        attach_stdout: None,
        attach_stderr: None,
        exposed_ports: exposed,
        tty: None,
        open_stdin: None,
        stdin_once: None,
        env,
        cmd: Seq::empty(),
        volumes: Seq::empty(),
        working_dir: None,
        entrypoint: Seq::empty(),
        network_disabled: None,
        mac_address: None,
        labels: Seq::empty(),
    }
}

impl CreatePlan {
    /// The configuration stored once the engine has created and started the
    /// container: the new id, the planned name and image, the planned
    /// settings, and the address resolved afterwards.
    pub fn into_config(self, container_id: String, ip_address: Option<String>) -> (r:
        ContainerConfig)
        ensures
            r@.container_id == container_id@,
            r@.name == self.name@,
            r@.image == self.image@,
            r@.host_config matches Some(h) && h.port_bindings == self.port_bindings.deep_view()
                && h.binds == self.binds.deep_view() && h.engine_host_config is None,
            r@.config == Some(
                spec_planned_runtime(self.env.deep_view(), self.exposed_ports.deep_view()),
            ),
            r@.ip_address == ip_address.deep_view(),
    {
        let host = HostSettings {
            port_bindings: self.port_bindings,
            binds: self.binds,
            engine_host_config: None,
        };
        let runtime = RuntimeConfig {
            hostname: None,
            domainname: None,
            user: None,
            attach_stdin: None,
            attach_stdout: None,
            attach_stderr: None,
            exposed_ports: self.exposed_ports,
            tty: None,
            open_stdin: None,
            stdin_once: None,
            env: self.env,
            cmd: Vec::new(),
            volumes: Vec::new(),
            working_dir: None,
            entrypoint: Vec::new(),
            network_disabled: None,
            mac_address: None,
            labels: Vec::new(),
        };
        let r = ContainerConfig {
            container_id,
            name: self.name,
            image: self.image,
            host_config: Some(host),
            config: Some(runtime),
            ip_address,
        };
        proof {
            assert(r@.config->Some_0 =~= spec_planned_runtime(
                r@.config->Some_0.env,
                r@.config->Some_0.exposed_ports,
            ));
        }
        r
    }
}

/// What a pull-progress status line says about a layer.
pub enum ProgressKind {
    /// The layer finished downloading.
    PullComplete,
    /// The layer is downloading.
    Downloading,
    /// The layer is being unpacked.
    Extracting,
    /// Anything else.
    Other,
}

/// Sort a pull-progress status line by the phase it reports, in the order
/// the phases are recognized.
pub fn classify_progress(status: &str) -> (r: ProgressKind)
    ensures
        match r {
            ProgressKind::PullComplete => has_substr(status@, "Pull complete"@),
            ProgressKind::Downloading => !has_substr(status@, "Pull complete"@) && has_substr(
                status@,
                "Downloading"@,
            ),
            ProgressKind::Extracting => !has_substr(status@, "Pull complete"@) && !has_substr(
                status@,
                "Downloading"@,
            ) && has_substr(status@, "Extracting"@),
            ProgressKind::Other => !has_substr(status@, "Pull complete"@) && !has_substr(
                status@,
                "Downloading"@,
            ) && !has_substr(status@, "Extracting"@),
        },
{
    if contains_substr(status, "Pull complete") {
        ProgressKind::PullComplete
    } else if contains_substr(status, "Downloading") {
        ProgressKind::Downloading
    } else if contains_substr(status, "Extracting") {
        ProgressKind::Extracting
    } else {
        ProgressKind::Other
    }
}

struct ProgressEntry {
    layer: String,
    status: String,
    progress: String,
}

spec fn prog_key() -> spec_fn(ProgressEntry) -> Seq<char> {
    |e: ProgressEntry| e.layer@
}

spec fn prog_val() -> spec_fn(ProgressEntry) -> (Seq<char>, Seq<char>) {
    |e: ProgressEntry| (e.status@, e.progress@)
}

/// Remembers, per image layer, the last progress line shown, so identical
/// consecutive reports are not repeated.
pub struct ProgressTracker {
    entries: Vec<ProgressEntry>,
}

impl View for ProgressTracker {
    type V = Map<Seq<char>, (Seq<char>, Seq<char>)>;

    closed spec fn view(&self) -> Map<Seq<char>, (Seq<char>, Seq<char>)> {
        map_of(self.entries@, prog_key(), prog_val())
    }
}

impl ProgressTracker {
    /// Entries carry pairwise distinct layer ids.
    pub closed spec fn wf(&self) -> bool {
        keys_unique(self.entries@, prog_key())
    }

    /// A tracker that has shown nothing yet.
    pub fn new() -> (r: Self)
        ensures
            r.wf(),
            r@ == Map::<Seq<char>, (Seq<char>, Seq<char>)>::empty(),
    {
        ProgressTracker { entries: Vec::new() }
    }

    fn find_index(&self, layer: &str) -> (r: Option<usize>)
        ensures
            match r {
                Some(i) => i < self.entries@.len() && self.entries@[i as int].layer@ == layer@,
                None => forall|j: int|
                    0 <= j < self.entries@.len() ==> (#[trigger] self.entries@[j]).layer@
                        != layer@,
            },
    {
        let mut i: usize = 0;
        while i < self.entries.len()
            invariant
                i <= self.entries@.len(),
                forall|j: int| 0 <= j < i ==> (#[trigger] self.entries@[j]).layer@ != layer@,
            decreases self.entries@.len() - i,
        {
            if crate::strutil::str_eq(self.entries[i].layer.as_str(), layer) {
                return Some(i);
            }
            i = i + 1;
        }
        None
    }

    /// Record a progress report for a layer; answers whether it should be
    /// shown, which it should exactly when it differs from the last report
    /// shown for that layer.
    pub fn note(&mut self, layer: &str, status: &str, progress: &str) -> (emit: bool)
        requires
            old(self).wf(),
        ensures
            final(self).wf(),
            emit == !(old(self)@.contains_key(layer@) && old(self)@[layer@] == (status@, progress@)),
            final(self)@ == old(self)@.insert(layer@, (status@, progress@)),
    {
        let ghost oldseq = self.entries@;
        let entry = ProgressEntry {
            layer: layer.to_owned(),
            status: status.to_owned(),
            progress: progress.to_owned(),
        };
        match self.find_index(layer) {
            Some(i) => {
                proof {
                    lemma_map_of_index(oldseq, prog_key(), prog_val(), i as int);
                }
                let same = crate::strutil::str_eq(self.entries[i].status.as_str(), status)
                    && crate::strutil::str_eq(self.entries[i].progress.as_str(), progress);
                proof {
                    lemma_map_of_update(oldseq, prog_key(), prog_val(), i as int, entry);
                    lemma_keys_unique_update(oldseq, prog_key(), i as int, entry);
                }
                self.entries.set(i, entry);
                !same
            },
            None => {
                proof {
                    lemma_map_of_absent(oldseq, prog_key(), prog_val(), layer@);
                    lemma_map_of_push(oldseq, prog_key(), prog_val(), entry);
                    lemma_keys_unique_push(oldseq, prog_key(), entry);
                }
                self.entries.push(entry);
                true
            },
        }
    }
}

} // verus!
