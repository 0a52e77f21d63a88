//! The outward-facing picture of one container, as the listing and detail
//! endpoints show it: identity, status, and the port, mount and environment
//! summaries read off the stored configuration.
use vstd::prelude::*;

use crate::create::spec_split_first;
use crate::models::{
    clone_opt_string, clone_string_vec, ContainerConfig, HostSettings, HostSettingsView,
    PortBinding, PortBindingView, RuntimeConfig,
};
use crate::strutil::find_char;

verus! {

/// What one container looks like to a reader: the stored identity and
/// configuration summaries, plus the status the engine reported.
pub struct ContainerInfo {
    pub id: String,
    pub name: String,
    pub image: String,
    pub status: String,
    pub ports: Vec<String>,
    pub mounts: Vec<String>,
    pub env: Vec<String>,
    pub ip_address: Option<String>,
    pub host_config: Option<HostSettings>,
    pub config: Option<RuntimeConfig>,
}

/// The engine-side port key without its protocol suffix: what stands before
/// the first slash, or the whole key when it has none.
pub open spec fn spec_port_prefix(key: Seq<char>) -> Seq<char> {
    match spec_split_first(key, '/') {
        Some(p) => p.0,
        None => key,
    }
}

/// How one binding is shown: `host:container` when a host port is bound,
/// else the bare engine-side key.
pub open spec fn spec_port_display(b: PortBindingView) -> Seq<char> {
    if b.host_port.len() > 0 {
        b.host_port + ":"@ + spec_port_prefix(b.container_port)
    } else {
        b.container_port
    }
}

/// The port summary of a configuration: one display entry per binding.
pub open spec fn spec_ports_of(h: Option<HostSettingsView>) -> Seq<Seq<char>> {
    match h {
        Some(hs) => hs.port_bindings.map_values(|b: PortBindingView| spec_port_display(b)),
        None => Seq::empty(),
    }
}

/// The mount summary of a configuration: its bind mounts, verbatim.
pub open spec fn spec_mounts_of(h: Option<HostSettingsView>) -> Seq<Seq<char>> {
    match h {
        Some(hs) => hs.binds,
        None => Seq::empty(),
    }
}

/// The environment summary of a configuration: its variables, verbatim.
pub open spec fn spec_env_of(c: Option<crate::models::RuntimeConfigView>) -> Seq<Seq<char>> {
    match c {
        Some(rc) => rc.env,
        None => Seq::empty(),
    }
}

/// Show one port binding.
fn port_display(b: &PortBinding) -> (r: String)
    ensures
        r@ == spec_port_display(b@),
{
    proof {
        reveal_strlit(":");
    }
    if b.host_port.as_str().is_empty() {
        b.container_port.clone()
    } else {
        let key = b.container_port.as_str();
        let prefix = match find_char(key, '/') {
            Some(i) => {
                proof {
                    crate::create::lemma_split_first_at(key@, '/', i as int);
                }
                key.substring_char(0, i)
            },
            None => {
                proof {
                    crate::create::lemma_split_first_none(key@, '/');
                }
                key
            },
        };
        let shown = crate::strutil::concat_strs(b.host_port.as_str(), ":");
        shown.concat(prefix)
    }
}

/// Project a stored configuration and a reported status into the picture a
/// reader is shown.
pub fn container_info_of(cfg: &ContainerConfig, status: String) -> (r: ContainerInfo)
    ensures
        r.id@ == cfg@.container_id,
        r.name@ == cfg@.name,
        r.image@ == cfg@.image,
        r.status@ == status@,
        r.ports.deep_view() == spec_ports_of(cfg@.host_config),
        r.mounts.deep_view() == spec_mounts_of(cfg@.host_config),
        r.env.deep_view() == spec_env_of(cfg@.config),
        r.ip_address.deep_view() == cfg@.ip_address,
        r.host_config.deep_view() == cfg@.host_config,
        r.config.deep_view() == cfg@.config,
{
    let ports: Vec<String>;
    let mounts: Vec<String>;
    match &cfg.host_config {
        Some(h) => {
            let mut shown: Vec<String> = Vec::new();
            let mut i: usize = 0;
            while i < h.port_bindings.len()
                invariant
                    i <= h.port_bindings@.len(),
                    shown@.len() == i,
                    forall|j: int|
                        0 <= j < i ==> (#[trigger] shown@[j])@ == spec_port_display(
                            h.port_bindings@[j]@,
                        ),
                decreases h.port_bindings@.len() - i,
            {
                shown.push(port_display(&h.port_bindings[i]));
                i = i + 1;
            }
            proof {
                assert(shown.deep_view() =~= h@.port_bindings.map_values(
                    |b: PortBindingView| spec_port_display(b),
                ));
            }
            ports = shown;
            mounts = clone_string_vec(&h.binds);
        },
        None => {
            ports = Vec::new();
            mounts = Vec::new();
            proof {
                assert(ports.deep_view() =~= Seq::<Seq<char>>::empty());
                assert(mounts.deep_view() =~= Seq::<Seq<char>>::empty());
            }
        },
    }
    let env: Vec<String>;
    match &cfg.config {
        Some(rc) => {
            env = clone_string_vec(&rc.env);
        },
        None => {
            env = Vec::new();
            proof {
                assert(env.deep_view() =~= Seq::<Seq<char>>::empty());
            }
        },
    }
    let host_config = match &cfg.host_config {
        Some(h) => Some(h.clone()),
        None => None,
    };
    let config = match &cfg.config {
        Some(rc) => Some(rc.clone()),
        None => None,
    };
    ContainerInfo {
        id: cfg.container_id.clone(),
        name: cfg.name.clone(),
        image: cfg.image.clone(),
        status,
        ports,
        mounts,
        env,
        ip_address: clone_opt_string(&cfg.ip_address),
        host_config,
        config,
    }
}

} // verus!
