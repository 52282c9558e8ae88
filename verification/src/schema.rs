//! The schema types: the closed set of valid shapes for a configuration
//! document, and the mathematical view of each.

use vstd::prelude::*;

use crate::digest::Digest;
use crate::json::{entry_views, Json};

verus! {

/// The views of a sequence of strings.
pub open spec fn views_of_strings(v: Seq<String>) -> Seq<Seq<char>> {
    v.map_values(|s: String| s@)
}

/// The views of a sequence of digests.
pub open spec fn views_of_digests(v: Seq<Digest>) -> Seq<Seq<char>> {
    v.map_values(|d: Digest| d@)
}

/// The views of a sequence of label entries.
pub open spec fn label_views(v: Seq<(String, String)>) -> Seq<(Seq<char>, Seq<char>)> {
    v.map_values(|p: (String, String)| (p.0@, p.1@))
}

/// The views of a sequence of history entries.
pub open spec fn history_views(v: Seq<History>) -> Seq<HistoryV> {
    v.map_values(|h: History| h@)
}

/// The target operating system of the image.
#[derive(Debug, Clone, Copy, PartialEq, Eq, Structural)]
pub enum OS {
    Linux,
    Windows,
}

/// The target processor architecture of the image.
#[derive(Debug, Clone, Copy, PartialEq, Eq, Structural)]
pub enum Architecture {
    Amd64,
    Aarch64,
}

/// The type tag of a filesystem descriptor; only layer stacks are
/// recognized.
#[derive(Debug, Clone, Copy, PartialEq, Eq, Structural)]
pub enum RootFSType {
    Layers,
}

/// Process launch defaults: user, ports, environment, entrypoint,
/// command, volumes, working directory and labels.
///
/// Port and volume values carry no required structure; they are kept
/// as the JSON values found in the document.
#[derive(Debug, PartialEq)]
pub struct Configuration {
    pub user: String,
    pub exposed_ports: Vec<(String, Json)>,
    pub env: Vec<String>,
    pub entrypoint: Vec<String>,
    pub cmd: Vec<String>,
    pub volumes: Vec<(String, Json)>,
    pub working_dir: String,
    pub labels: Vec<(String, String)>,
}

/// The mathematical view of a [`Configuration`].
#[verifier::ext_equal]
pub ghost struct ConfigurationV {
    pub user: Seq<char>,
    pub exposed_ports: Seq<(Seq<char>, Json)>,
    pub env: Seq<Seq<char>>,
    pub entrypoint: Seq<Seq<char>>,
    pub cmd: Seq<Seq<char>>,
    pub volumes: Seq<(Seq<char>, Json)>,
    pub working_dir: Seq<char>,
    pub labels: Seq<(Seq<char>, Seq<char>)>,
}

impl View for Configuration {
    type V = ConfigurationV;

    open spec fn view(&self) -> ConfigurationV {
        ConfigurationV {
            user: self.user@,
            exposed_ports: entry_views(self.exposed_ports@),
            env: views_of_strings(self.env@),
            entrypoint: views_of_strings(self.entrypoint@),
            cmd: views_of_strings(self.cmd@),
            volumes: entry_views(self.volumes@),
            working_dir: self.working_dir@,
            labels: label_views(self.labels@),
        }
    }
}

/// The ordered stack of filesystem layers composing the root
/// filesystem, root to top, each named by a content identifier.
#[derive(Debug, PartialEq)]
pub struct RootFS {
    pub diff_ids: Vec<Digest>,
    pub rootfs_type: RootFSType,
}

/// The mathematical view of a [`RootFS`].
#[verifier::ext_equal]
pub ghost struct RootFSV {
    pub diff_ids: Seq<Seq<char>>,
    pub rootfs_type: RootFSType,
}

impl View for RootFS {
    type V = RootFSV;

    open spec fn view(&self) -> RootFSV {
        RootFSV {
            diff_ids: views_of_digests(self.diff_ids@),
            rootfs_type: self.rootfs_type,
        }
    }
}

/// The value taken by a history entry's "produced no layer" flag when
/// the document omits it.
pub fn default_as_false() -> (b: bool)
    ensures
        b == false,
{
    false
}

/// One provenance record per build step: when it ran, what command
/// produced it, and whether it produced no filesystem layer.
#[derive(Debug, PartialEq)]
pub struct History {
    pub created: String,
    pub created_by: String,
    pub empty_layer: bool,
}

/// The mathematical view of a [`History`] entry.
#[verifier::ext_equal]
pub ghost struct HistoryV {
    pub created: Seq<char>,
    pub created_by: Seq<char>,
    pub empty_layer: bool,
}

impl View for History {
    type V = HistoryV;

    open spec fn view(&self) -> HistoryV {
        HistoryV {
            created: self.created@,
            created_by: self.created_by@,
            empty_layer: self.empty_layer,
        }
    }
}

/// A fully decoded configuration document.
#[derive(Debug, PartialEq)]
pub struct Config {
    pub created: String,
    pub author: String,
    pub architecture: Architecture,
    pub os: OS,
    pub config: Configuration,
    pub rootfs: RootFS,
    pub history: Vec<History>,
}

/// The mathematical view of a [`Config`].
#[verifier::ext_equal]
pub ghost struct ConfigV {
    pub created: Seq<char>,
    pub author: Seq<char>,
    pub architecture: Architecture,
    pub os: OS,
    pub config: ConfigurationV,
    pub rootfs: RootFSV,
    pub history: Seq<HistoryV>,
}

impl View for Config {
    type V = ConfigV;

    open spec fn view(&self) -> ConfigV {
        ConfigV {
            created: self.created@,
            author: self.author@,
            architecture: self.architecture,
            os: self.os,
            config: self.config@,
            rootfs: self.rootfs@,
            history: history_views(self.history@),
        }
    }
}

} // verus!
