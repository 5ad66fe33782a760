//! Version information.
use vstd::prelude::*;

verus! {

/// Asks `hostname::get` for the host name of the machine. `None` stands for its error and for
/// a name that is not valid Unicode. The answer depends on the machine, so nothing is claimed
/// of it.
#[verifier::external_body]
fn host_name() -> (r: Option<String>) {
    match hostname::get() {
        Ok(name) => name.into_string().ok(),
        Err(_) => None,
    }
}

/// Holds detailed version information for the plugin and its dependencies.
#[derive(Debug, Clone, Copy)]
pub struct Version {
    /// The name of the cargo package.
    pub package: &'static str,
    /// The version of the cargo package.
    pub version: &'static str,
    /// The version of the crate that defines the gRPC messages.
    pub proto: &'static str,
    /// The version of the Solana SDK used.
    pub solana: &'static str,
    /// The git commit hash of the build.
    pub git: &'static str,
    /// The version of the Rust compiler used.
    pub rustc: &'static str,
    /// The timestamp of the build.
    pub buildts: &'static str,
}

impl Version {
    /// The text that shows the version.
    pub open spec fn text(self) -> Seq<char> {
        "solana-geyser-grpc="@ + self.version@ + ", proto="@ + self.proto@ + ", solana="@
            + self.solana@ + ", git="@ + self.git@ + ", rustc="@ + self.rustc@ + ", buildts="@
            + self.buildts@
    }

    /// The name of the plugin: its package and its version with a dash between them.
    pub open spec fn plugin_name_text(self) -> Seq<char> {
        self.package@ + "-"@ + self.version@
    }

    /// Shows the version.
    pub fn display(&self) -> (r: String)
        ensures
            r@ == self.text(),
    {
        let mut out = String::new();
        out.append("solana-geyser-grpc=");
        out.append(self.version);
        out.append(", proto=");
        out.append(self.proto);
        out.append(", solana=");
        out.append(self.solana);
        out.append(", git=");
        out.append(self.git);
        out.append(", rustc=");
        out.append(self.rustc);
        out.append(", buildts=");
        out.append(self.buildts);
        proof {
            assert(out@ =~= self.text());
        }
        out
    }

    /// The name of the plugin.
    pub fn plugin_name(&self) -> (r: String)
        ensures
            r@ == self.plugin_name_text(),
    {
        let mut out = String::new();
        out.append(self.package);
        out.append("-");
        out.append(self.version);
        proof {
            assert(out@ =~= self.plugin_name_text());
        }
        out
    }
}

/// Additional runtime information for the gRPC version response.
#[derive(Debug)]
pub struct GrpcVersionInfoExtra {
    /// The hostname of the machine running the plugin.
    pub hostname: Option<String>,
}

/// Combines compile-time and runtime version information, primarily for the `GetVersion` gRPC
/// method.
#[derive(Debug)]
pub struct GrpcVersionInfo {
    /// The version of the build.
    pub version: Version,
    /// What is known of the machine.
    pub extra: GrpcVersionInfoExtra,
}

impl GrpcVersionInfo {
    /// The text that shows the version, and the host name where it is known.
    pub open spec fn text(self) -> Seq<char> {
        match self.extra.hostname {
            Some(hostname) => self.version.text() + ", hostname="@ + hostname@,
            None => self.version.text(),
        }
    }

    /// Puts the version information together for a build and a host name.
    pub fn with_hostname(version: Version, hostname: Option<String>) -> (r: Self)
        ensures
            r.version == version,
            r.extra.hostname == hostname,
    {
        GrpcVersionInfo { version, extra: GrpcVersionInfoExtra { hostname } }
    }

    /// Gets the gRPC version information for a build. The host name is what the machine says.
    pub fn get(version: Version) -> (r: Self)
        ensures
            r.version == version,
    {
        Self::with_hostname(version, host_name())
    }

    /// Shows the version, and the host name where it is known.
    pub fn display(&self) -> (r: String)
        ensures
            r@ == self.text(),
    {
        let mut out = self.version.display();
        if let Some(hostname) = &self.extra.hostname {
            out.append(", hostname=");
            out.append(hostname.as_str());
        }
        proof {
            assert(out@ =~= self.text());
        }
        out
    }
}

/// The version is shown with its parts in their places.
pub proof fn law_version_text(version: Version)
    ensures
        version.text() == "solana-geyser-grpc="@ + version.version@ + ", proto="@ + version.proto@
            + ", solana="@ + version.solana@ + ", git="@ + version.git@ + ", rustc="@
            + version.rustc@ + ", buildts="@ + version.buildts@,
        version.plugin_name_text() == version.package@ + "-"@ + version.version@,
{
}

/// The host name is shown behind the version where it is known, whatever it is, and nothing is
/// where it is not.
pub proof fn law_host_name_shown(info: GrpcVersionInfo)
    ensures
        info.extra.hostname is None ==> info.text() == info.version.text(),
        info.extra.hostname matches Some(hostname) ==> info.text() == info.version.text()
            + ", hostname="@ + hostname@,
{
}

} // verus!
