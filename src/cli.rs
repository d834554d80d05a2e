use vstd::prelude::*;

verus! {

/// Options shared by every command; none yet.
#[derive(Clone, Debug, PartialEq, Eq)]
pub struct GlobalOptions {}

/// Where a command reads its input and writes its output.
#[derive(Clone, Debug, PartialEq, Eq)]
pub struct IoArgs {
    /// File path to input; "stdin" by default.
    pub input_path: String,
    /// File path to output; "stdout" by default.
    pub output_path: String,
}

#[derive(Clone, Debug, PartialEq, Eq)]
pub enum Command {
    /// Calculates the block hash.
    BlockHash { io_args: IoArgs },
    /// Calculates the commitments needed for the block hash.
    BlockHashCommitments { io_args: IoArgs },
    /// Given a previous state tree skeleton and a state diff, computes the new commitment.
    Commit { output_path: String },
    /// Runs a named test with optional JSON inputs.
    PythonTest { io_args: IoArgs, test_name: String, inputs: Option<String> },
}

/// Arguments of the committer command line.
#[derive(Clone, Debug, PartialEq, Eq)]
pub struct CommitterCliArgs {
    pub global_options: GlobalOptions,
    pub command: Command,
}

impl CommitterCliArgs {
    /// The file the command writes to.
    pub fn output_path(&self) -> (r: &String)
        ensures
            r == match self.command {
                Command::BlockHash { io_args } => &io_args.output_path,
                Command::BlockHashCommitments { io_args } => &io_args.output_path,
                Command::Commit { output_path } => &output_path,
                Command::PythonTest { io_args, .. } => &io_args.output_path,
            },
    {
        match &self.command {
            Command::BlockHash { io_args } => &io_args.output_path,
            Command::BlockHashCommitments { io_args } => &io_args.output_path,
            Command::Commit { output_path } => output_path,
            Command::PythonTest { io_args, .. } => &io_args.output_path,
        }
    }
}

} // verus!
