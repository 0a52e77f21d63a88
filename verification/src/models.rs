//! Model of a container's configuration, as the supervisor keeps it: the
//! engine-assigned id, the normalized name, the image reference, the
//! host-level settings (the published-port and bind-mount projections the
//! core reads, plus the engine's own host record carried verbatim), the
//! process-level snapshot (environment, command, entrypoint, labels, volumes
//! and the other per-process fields, all as plain values) and a best-effort
//! IP address. The core reads only a few of these fields; the rest ride
//! along so a recreate rebuilds the container as it was.
use vstd::prelude::*;

verus! {

/// The supervisor's error taxonomy: the engine is unreachable; an inspect
/// failed or the container vanished; a restart, create or remove step failed;
/// or a restarted container did not come back as running.
#[derive(Clone, Copy, Debug, PartialEq, Eq, Structural)]
pub enum CoreError {
    NotFound,
    Connection,
    Inspect,
    Workflow,
    Verification,
}

/// One published port: the engine-side key (for example `6379/tcp`) and the
/// host interface and port bound to it.
pub struct PortBinding {
    pub container_port: String,
    pub host_ip: String,
    pub host_port: String,
}

/// Mathematical image of a `PortBinding`.
#[verifier::ext_equal]
pub struct PortBindingView {
    pub container_port: Seq<char>,
    pub host_ip: Seq<char>,
    pub host_port: Seq<char>,
}

impl View for PortBinding {
    type V = PortBindingView;

    open spec fn view(&self) -> PortBindingView {
        PortBindingView {
            container_port: self.container_port@,
            host_ip: self.host_ip@,
            host_port: self.host_port@,
        }
    }
}

impl DeepView for PortBinding {
    type V = PortBindingView;

    open spec fn deep_view(&self) -> PortBindingView {
        self.view()
    }
}

impl Clone for PortBinding {
    fn clone(&self) -> (r: Self)
        ensures
            r@ == self@,
    {
        PortBinding {
            container_port: self.container_port.clone(),
            host_ip: self.host_ip.clone(),
            host_port: self.host_port.clone(),
        }
    }
}

/// Declares the engine's host-level configuration record so a value of it
/// can ride through the store. The core never reads it; it is kept only so a
/// recreate can hand the engine back exactly what an inspect reported.
#[verifier::external_type_specification]
#[verifier::external_body]
pub struct ExHostConfig(bollard::models::HostConfig);

/// Relies on `bollard::models::HostConfig`'s derived `Clone`: a
/// field-for-field copy of a plain data record, equal to its source.
#[verifier::external_body]
fn clone_engine_host_config(h: &bollard::models::HostConfig) -> (r: bollard::models::HostConfig)
    ensures
        r == *h,
{
    h.clone()
}

/// Host-level configuration carried from one incarnation of a container to
/// the next: the published-port and bind-mount projections the core reads,
/// and the engine's own record, carried verbatim for the rebuild.
pub struct HostSettings {
    pub port_bindings: Vec<PortBinding>,
    pub binds: Vec<String>,
    pub engine_host_config: Option<bollard::models::HostConfig>,
}

/// Mathematical image of `HostSettings`. The engine's record is opaque: it
/// stands in the view as the value itself.
#[verifier::ext_equal]
pub struct HostSettingsView {
    pub port_bindings: Seq<PortBindingView>,
    pub binds: Seq<Seq<char>>,
    pub engine_host_config: Option<bollard::models::HostConfig>,
}

impl View for HostSettings {
    type V = HostSettingsView;

    open spec fn view(&self) -> HostSettingsView {
        HostSettingsView {
            port_bindings: self.port_bindings.deep_view(),
            binds: self.binds.deep_view(),
            engine_host_config: self.engine_host_config,
        }
    }
}

impl DeepView for HostSettings {
    type V = HostSettingsView;

    open spec fn deep_view(&self) -> HostSettingsView {
        self.view()
    }
}

/// Clone a vector of strings, preserving its contents exactly.
pub fn clone_string_vec(v: &Vec<String>) -> (r: Vec<String>)
    ensures
        r@ == v@,
        r.deep_view() == v.deep_view(),
{
    let mut out: Vec<String> = Vec::new();
    let mut i: usize = 0;
    while i < v.len()
        invariant
            i <= v.len(),
            out@.len() == i,
            forall|j: int| 0 <= j < i ==> out@[j] == v@[j],
        decreases v.len() - i,
    {
        out.push(v[i].clone());
        i = i + 1;
    }
    proof {
        assert(out@ =~= v@);
        assert(out.deep_view() =~= v.deep_view());
    }
    out
}

/// Clone an optional string, preserving its contents exactly.
pub fn clone_opt_string(v: &Option<String>) -> (r: Option<String>)
    ensures
        r.deep_view() == v.deep_view(),
{
    match v {
        Some(s) => Some(s.clone()),
        None => None,
    }
}

/// Clone a vector of string pairs, preserving its contents exactly.
pub fn clone_string_pairs(v: &Vec<(String, String)>) -> (r: Vec<(String, String)>)
    ensures
        r@ == v@,
        r.deep_view() == v.deep_view(),
{
    let mut out: Vec<(String, String)> = Vec::new();
    let mut i: usize = 0;
    while i < v.len()
        invariant
            i <= v.len(),
            out@.len() == i,
            forall|j: int| 0 <= j < i ==> out@[j] == v@[j],
        decreases v.len() - i,
    {
        out.push((v[i].0.clone(), v[i].1.clone()));
        i = i + 1;
    }
    proof {
        assert(out@ =~= v@);
        assert(out.deep_view() =~= v.deep_view());
    }
    out
}

impl Clone for HostSettings {
    fn clone(&self) -> (r: Self)
        ensures
            r@ == self@,
    {
        let mut ports: Vec<PortBinding> = Vec::new();
        let mut i: usize = 0;
        while i < self.port_bindings.len()
            invariant
                i <= self.port_bindings.len(),
                ports@.len() == i,
                forall|j: int| 0 <= j < i ==> ports@[j]@ == self.port_bindings@[j]@,
            decreases self.port_bindings.len() - i,
        {
            ports.push(self.port_bindings[i].clone());
            i = i + 1;
        }
        let engine_host_config = match &self.engine_host_config {
            Some(h) => Some(clone_engine_host_config(h)),
            None => None,
        };
        let r = HostSettings {
            port_bindings: ports,
            binds: clone_string_vec(&self.binds),
            engine_host_config,
        };
        proof {
            assert(r.port_bindings.deep_view() =~= self.port_bindings.deep_view());
            assert(r@ =~= self@);
        }
        r
    }
}

/// Process-level configuration carried from one incarnation of a container
/// to the next, as plain values: environment, command, entrypoint, exposed
/// ports, volumes, labels and the per-process scalars, passed through
/// verbatim. The core reads only the environment, for display.
pub struct RuntimeConfig {
    pub hostname: Option<String>,
    pub domainname: Option<String>,
    pub user: Option<String>,
    pub attach_stdin: Option<bool>,
    pub attach_stdout: Option<bool>,
    pub attach_stderr: Option<bool>,
    pub exposed_ports: Vec<String>,
    pub tty: Option<bool>,
    pub open_stdin: Option<bool>,
    pub stdin_once: Option<bool>,
    pub env: Vec<String>,
    pub cmd: Vec<String>,
    pub volumes: Vec<String>,
    pub working_dir: Option<String>,
    pub entrypoint: Vec<String>,
    pub network_disabled: Option<bool>,
    pub mac_address: Option<String>,
    pub labels: Vec<(String, String)>,
}

/// Mathematical image of `RuntimeConfig`.
#[verifier::ext_equal]
pub struct RuntimeConfigView {
    pub hostname: Option<Seq<char>>,
    pub domainname: Option<Seq<char>>,
    pub user: Option<Seq<char>>,
    pub attach_stdin: Option<bool>,
    pub attach_stdout: Option<bool>,
    pub attach_stderr: Option<bool>,
    pub exposed_ports: Seq<Seq<char>>,
    pub tty: Option<bool>,
    pub open_stdin: Option<bool>,
    pub stdin_once: Option<bool>,
    pub env: Seq<Seq<char>>,
    pub cmd: Seq<Seq<char>>,
    pub volumes: Seq<Seq<char>>,
    pub working_dir: Option<Seq<char>>,
    pub entrypoint: Seq<Seq<char>>,
    pub network_disabled: Option<bool>,
    pub mac_address: Option<Seq<char>>,
    pub labels: Seq<(Seq<char>, Seq<char>)>,
}

impl View for RuntimeConfig {
    type V = RuntimeConfigView;

    open spec fn view(&self) -> RuntimeConfigView {
        RuntimeConfigView {
            hostname: self.hostname.deep_view(),
            domainname: self.domainname.deep_view(),
            user: self.user.deep_view(),
            attach_stdin: self.attach_stdin,
            attach_stdout: self.attach_stdout,
            attach_stderr: self.attach_stderr,
            exposed_ports: self.exposed_ports.deep_view(),
            tty: self.tty,
            open_stdin: self.open_stdin,
            stdin_once: self.stdin_once,
            env: self.env.deep_view(),
            cmd: self.cmd.deep_view(),
            volumes: self.volumes.deep_view(),
            working_dir: self.working_dir.deep_view(),
            entrypoint: self.entrypoint.deep_view(),
            network_disabled: self.network_disabled,
            mac_address: self.mac_address.deep_view(),
            labels: self.labels.deep_view(),
        }
    }
}

impl DeepView for RuntimeConfig {
    type V = RuntimeConfigView;

    open spec fn deep_view(&self) -> RuntimeConfigView {
        self.view()
    }
}

impl Clone for RuntimeConfig {
    fn clone(&self) -> (r: Self)
        ensures
            r@ == self@,
    {
        let r = RuntimeConfig {
            hostname: clone_opt_string(&self.hostname),
            domainname: clone_opt_string(&self.domainname),
            user: clone_opt_string(&self.user),
            attach_stdin: self.attach_stdin,
            attach_stdout: self.attach_stdout,
            attach_stderr: self.attach_stderr,
            exposed_ports: clone_string_vec(&self.exposed_ports),
            tty: self.tty,
            open_stdin: self.open_stdin,
            stdin_once: self.stdin_once,
            env: clone_string_vec(&self.env),
            cmd: clone_string_vec(&self.cmd),
            volumes: clone_string_vec(&self.volumes),
            working_dir: clone_opt_string(&self.working_dir),
            entrypoint: clone_string_vec(&self.entrypoint),
            network_disabled: self.network_disabled,
            mac_address: clone_opt_string(&self.mac_address),
            labels: clone_string_pairs(&self.labels),
        };
        proof {
            assert(r@ =~= self@);
        }
        r
    }
}

/// Everything the supervisor remembers about one container, keyed by the
/// engine-assigned id. The id changes whenever the container is recreated;
/// the rest is carried forward so the container can be rebuilt.
pub struct ContainerConfig {
    pub container_id: String,
    pub name: String,
    pub image: String,
    pub host_config: Option<HostSettings>,
    pub config: Option<RuntimeConfig>,
    pub ip_address: Option<String>,
}

/// Mathematical image of a `ContainerConfig`.
#[verifier::ext_equal]
pub struct ConfigView {
    pub container_id: Seq<char>,
    pub name: Seq<char>,
    pub image: Seq<char>,
    pub host_config: Option<HostSettingsView>,
    pub config: Option<RuntimeConfigView>,
    pub ip_address: Option<Seq<char>>,
}

impl View for ContainerConfig {
    type V = ConfigView;

    open spec fn view(&self) -> ConfigView {
        ConfigView {
            container_id: self.container_id@,
            name: self.name@,
            image: self.image@,
            host_config: self.host_config.deep_view(),
            config: self.config.deep_view(),
            ip_address: self.ip_address.deep_view(),
        }
    }
}

impl DeepView for ContainerConfig {
    type V = ConfigView;

    open spec fn deep_view(&self) -> ConfigView {
        self.view()
    }
}

impl Clone for ContainerConfig {
    fn clone(&self) -> (r: Self)
        ensures
            r@ == self@,
    {
        let host_config = match &self.host_config {
            Some(h) => Some(h.clone()),
            None => None,
        };
        let config = match &self.config {
            Some(c) => Some(c.clone()),
            None => None,
        };
        let r = ContainerConfig {
            container_id: self.container_id.clone(),
            name: self.name.clone(),
            image: self.image.clone(),
            host_config,
            config,
            ip_address: clone_opt_string(&self.ip_address),
        };
        proof {
            assert(r@ =~= self@);
        }
        r
    }
}

impl ContainerConfig {
    /// A fresh snapshot with no resolved address yet.
    pub fn new(
        container_id: String,
        name: String,
        image: String,
        host_config: Option<HostSettings>,
        config: Option<RuntimeConfig>,
    ) -> (r: Self)
        ensures
            r@.container_id == container_id@,
            r@.name == name@,
            r@.image == image@,
            r@.host_config == host_config.deep_view(),
            r@.config == config.deep_view(),
            r@.ip_address is None,
    {
        ContainerConfig { container_id, name, image, host_config, config, ip_address: None }
    }

    /// Build the stored snapshot from what an engine inspect reported: the
    /// name loses the path separators the engine prepends, and a missing
    /// name or image becomes empty rather than absent.
    pub fn from_inspect(
        container_id: String,
        raw_name: Option<String>,
        image: Option<String>,
        host_config: Option<HostSettings>,
        config: Option<RuntimeConfig>,
        ip_address: Option<String>,
    ) -> (r: Self)
        ensures
            r@.container_id == container_id@,
            r@.name == crate::strutil::spec_strip_leading(
                match raw_name.deep_view() {
                    Some(n) => n,
                    None => Seq::empty(),
                },
                '/',
            ),
            r@.image == match image.deep_view() {
                Some(s) => s,
                None => Seq::<char>::empty(),
            },
            r@.host_config == host_config.deep_view(),
            r@.config == config.deep_view(),
            r@.ip_address == ip_address.deep_view(),
    {
        let name = match raw_name {
            Some(n) => crate::strutil::strip_leading_char(n.as_str(), '/'),
            None => String::new(),
        };
        let image = match image {
            Some(s) => s,
            None => String::new(),
        };
        ContainerConfig { container_id, name, image, host_config, config, ip_address }
    }
}

} // verus!
