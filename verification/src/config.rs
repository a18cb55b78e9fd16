//! Configuration data for the development tool's command line: which
//! subcommand runs and with what inputs. These are plain data carriers;
//! argument parsing itself happens at the binary's edge, which converts
//! into these types.

use vstd::prelude::*;

verus! {

/// Top-level configuration: the selected subcommand plus shared options.
#[derive(Clone)]
pub struct Config {
    pub sub_command: SubCommand,
    pub additional: BaseConfig,
}

/// Options shared by every subcommand.
#[derive(Clone)]
pub struct BaseConfig {
    /// Overrides the default data directory where the node's files are
    /// stored.
    pub data_dir: Option<String>,
}

/// The available subcommands.
#[derive(Clone)]
pub enum SubCommand {
    RunLocal(LocalNodeCliConfig),
    Build(BuildToolCliConfig),
    New(NewPackageCliConfig),
    Publish(PutConfig),
    Execute(RunCliConfig),
}

/// Configuration for running the local node.
#[derive(Clone)]
pub struct LocalNodeCliConfig {}

/// Node CLI
///
/// Executes commands against the local node; intended for development and
/// automated workflows.
#[derive(Clone)]
pub struct RunCliConfig {
    /// Command to execute.
    pub command: NodeCommand,
}

/// A command against the local node.
#[derive(Clone)]
pub enum NodeCommand {
    Put(PutConfig),
    Update(UpdateConfig),
}

/// Updates a contract in the network.
#[derive(Clone)]
pub struct UpdateConfig {
    /// Contract id of the contract being updated, in Base58 format.
    pub key: String,
    /// A path to the update/delta being pushed to the contract.
    pub delta: String,
    /// Whether this contract will be updated in the network or is just a
    /// dry run to be executed in local mode only. By default updates are
    /// performed in local mode.
    pub release: bool,
}

/// Publishes a new contract to the network.
#[derive(Clone)]
pub struct PutConfig {
    /// A path to the compiled contract code file.
    pub code: String,
    /// A path to the file holding the contract's parameters. If not
    /// specified, the contract is published with empty parameters.
    pub parameters: Option<String>,
    /// A path to the initial state for the contract being published.
    pub state: String,
    /// Whether this contract will be released into the network or is just
    /// a dry run to be executed in local mode only. By default puts are
    /// performed in local mode.
    pub release: bool,
}

/// Builds and packages a contract.
#[derive(Clone)]
pub struct BuildToolCliConfig {}

/// Creates a new contract and/or app package.
#[derive(Clone)]
pub struct NewPackageCliConfig {
    pub kind: ContractKind,
}

/// The kind of package to create.
#[derive(Clone)]
pub enum ContractKind {
    /// A web app container contract.
    WebApp,
    /// A standard contract.
    Contract,
}

} // verus!
