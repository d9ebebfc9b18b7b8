//! The configuration: the command line over the file over the defaults.

use crate::cli;
use crate::cli::Cli;
use crate::error::Error;
use crate::text;
use crate::zoom;
use crate::zoom::Zoom;
use vstd::prelude::*;

verus! {

/// What the configuration file says.
#[derive(Debug, Clone, Copy, PartialEq, Eq, Structural)]
pub struct FileConfig {
    pub quality: Option<u8>,
    pub zoom: Option<Zoom>,
    pub mcp: Option<FileMcpConfig>,
}

/// What the configuration file says of the MCP server.
#[derive(Debug, Clone, Copy, PartialEq, Eq, Structural)]
pub struct FileMcpConfig {
    pub enabled: Option<bool>,
    pub port: Option<u16>,
    pub allow_control: Option<bool>,
}

/// A file that says nothing.
pub open spec fn empty_file() -> FileConfig {
    FileConfig { quality: None, zoom: None, mcp: None }
}

/// A file that says nothing of the MCP server.
pub open spec fn empty_mcp() -> FileMcpConfig {
    FileMcpConfig { enabled: None, port: None, allow_control: None }
}

impl Default for FileConfig {
    fn default() -> (r: Self)
        ensures
            r == empty_file(),
    {
        FileConfig { quality: None, zoom: None, mcp: None }
    }
}

impl Default for FileMcpConfig {
    fn default() -> (r: Self)
        ensures
            r == empty_mcp(),
    {
        FileMcpConfig { enabled: None, port: None, allow_control: None }
    }
}

/// The MCP server's configuration.
#[derive(Debug, Clone, Copy, PartialEq, Eq, Structural)]
pub struct McpConfig {
    pub enabled: bool,
    pub port: Option<u16>,
    pub allow_control: bool,
}

/// The configuration of a run. `P` is the type of a path.
#[derive(Debug, Clone)]
pub struct Config<P> {
    pub profile_dir: P,
    pub chrome: Option<P>,
    pub log_path: P,
    pub quality: u8,
    pub zoom: Zoom,
    pub start_url: String,
    pub mcp: McpConfig,
}

/// What the machine gives where nothing is configured.
#[derive(Debug, Clone)]
pub struct Defaults<P> {
    pub profile_dir: P,
    pub log_path: P,
    /// The display's scale factor.
    pub display_scale: Zoom,
}

/// The first of two, where there is one, else the second.
pub open spec fn either<A>(first: Option<A>, second: Option<A>) -> Option<A> {
    if first is Some {
        first
    } else {
        second
    }
}

/// What there is, or `d`.
pub open spec fn or_default<A>(o: Option<A>, d: A) -> A {
    match o {
        Some(a) => a,
        None => d,
    }
}

/// A quality from 1 to 100.
pub open spec fn quality_of(q: Option<u8>) -> u8 {
    let q = or_default(q, 92);
    if q < 1 {
        1
    } else if q > 100 {
        100
    } else {
        q
    }
}

/// The zoom factor that was asked for, between one half and four, if it is one.
pub open spec fn asked_zoom(z: Option<Zoom>) -> Option<Zoom> {
    match z {
        Some(z) => if z.is_positive() {
            Some(z.clamped(zoom::HALF, zoom::FOUR))
        } else {
            None
        },
        None => None,
    }
}

/// The zoom factor: as asked for on the command line, else in the file, else the
/// display's scale between one and three.
pub open spec fn zoom_of(cli: Option<Zoom>, file: Option<Zoom>, display: Zoom) -> Zoom {
    or_default(either(asked_zoom(cli), asked_zoom(file)), display.clamped(zoom::ONE, zoom::THREE))
}

/// The MCP server's configuration: the command line over the file, and off where
/// neither says anything.
pub open spec fn mcp_of(
    on: Option<bool>,
    port: Option<u16>,
    control: Option<bool>,
    file: FileMcpConfig,
) -> McpConfig {
    McpConfig {
        enabled: or_default(either(on, file.enabled), false),
        port: either(port, file.port),
        allow_control: or_default(either(control, file.allow_control), false),
    }
}

/// Reads a zoom factor that was asked for.
fn read_zoom(z: Option<Zoom>) -> (r: Option<Zoom>)
    ensures
        r == asked_zoom(z),
{
    match z {
        Some(z) => if z.positive() {
            Some(z.clamp_bits(zoom::HALF, zoom::FOUR))
        } else {
            None
        },
        None => None,
    }
}

/// The first of two, where there is one, else the second.
fn choose_first<A: Copy>(first: Option<A>, second: Option<A>) -> (r: Option<A>)
    ensures
        r == either(first, second),
{
    match first {
        Some(a) => Some(a),
        None => second,
    }
}

impl<P> Config<P> {
    /// Puts the configuration together: what the command line says comes before
    /// what the file says, and that before the defaults.
    pub fn resolve(cli: Cli<P>, file: Option<FileConfig>, defaults: Defaults<P>) -> (r: Result<
        Config<P>,
        Error,
    >)
        ensures
            r is Ok,
            r->Ok_0.profile_dir == or_default(cli.profile_dir, defaults.profile_dir),
            r->Ok_0.chrome == cli.chrome,
            r->Ok_0.log_path == defaults.log_path,
            r->Ok_0.quality == quality_of(
                either(cli.quality, or_default(file, empty_file()).quality),
            ),
            r->Ok_0.zoom == zoom_of(
                cli.zoom,
                or_default(file, empty_file()).zoom,
                defaults.display_scale,
            ),
            r->Ok_0.start_url@ == or_default(text::opt_view(cli.url), "about:blank"@),
            r->Ok_0.mcp == mcp_of(
                cli::switch_of(cli.mcp_on, cli.mcp_off),
                cli.mcp_port,
                cli::switch_of(cli.mcp_allow_control_on, cli.mcp_allow_control_off),
                or_default(or_default(file, empty_file()).mcp, empty_mcp()),
            ),
    {
        let file: FileConfig = match file {
            Some(f) => f,
            None => FileConfig::default(),
        };
        let fmcp: FileMcpConfig = match file.mcp {
            Some(m) => m,
            None => FileMcpConfig::default(),
        };
        let cli_mcp: Option<bool> = cli.mcp();
        let cli_control: Option<bool> = cli.mcp_allow_control();
        let q: u8 = match choose_first(cli.quality, file.quality) {
            Some(q) => q,
            None => 92,
        };
        let quality: u8 = if q < 1 {
            1
        } else if q > 100 {
            100
        } else {
            q
        };
        let zoom: Zoom = match choose_first(read_zoom(cli.zoom), read_zoom(file.zoom)) {
            Some(z) => z,
            None => defaults.display_scale.clamp_bits(zoom::ONE, zoom::THREE),
        };
        let mcp: McpConfig = McpConfig {
            enabled: match choose_first(cli_mcp, fmcp.enabled) {
                Some(b) => b,
                None => false,
            },
            port: choose_first(cli.mcp_port, fmcp.port),
            allow_control: match choose_first(cli_control, fmcp.allow_control) {
                Some(b) => b,
                None => false,
            },
        };
        let start_url: String = match cli.url {
            Some(u) => u,
            None => "about:blank".to_string(),
        };
        let profile_dir: P = match cli.profile_dir {
            Some(p) => p,
            None => defaults.profile_dir,
        };
        Ok(
            Config {
                profile_dir,
                chrome: cli.chrome,
                log_path: defaults.log_path,
                quality,
                zoom,
                start_url,
                mcp,
            },
        )
    }
}

/// Whatever was configured, the quality lies between 1 and 100, and the zoom
/// factor between one half and four, unless the display's scale is no number.
pub proof fn law_config_in_range(q: Option<u8>, cli: Option<Zoom>, file: Option<Zoom>, display: Zoom)
    requires
        !display.is_nan(),
    ensures
        1 <= quality_of(q) <= 100,
        zoom::HALF <= zoom_of(cli, file, display).bits <= zoom::FOUR,
{
}

/// The command line always wins over the file; a zoom factor has to be one.
pub proof fn law_cli_wins(
    on: bool,
    port: u16,
    control: bool,
    quality: u8,
    zoom: Zoom,
    file: FileMcpConfig,
    file_quality: Option<u8>,
    file_zoom: Option<Zoom>,
    display: Zoom,
)
    ensures
        zoom.is_positive() ==> zoom_of(Some(zoom), file_zoom, display) == zoom.clamped(
            zoom::HALF,
            zoom::FOUR,
        ),
        mcp_of(Some(on), Some(port), Some(control), file) == (McpConfig {
            enabled: on,
            port: Some(port),
            allow_control: control,
        }),
        quality_of(either(Some(quality), file_quality)) == quality_of(Some(quality)),
{
}

/// An agent may control the browser only where someone allowed it.
pub proof fn law_control_is_opt_in(on: Option<bool>, port: Option<u16>)
    ensures
        !mcp_of(on, port, None, empty_mcp()).allow_control,
        !mcp_of(None, port, None, empty_mcp()).enabled,
{
}

} // verus!
