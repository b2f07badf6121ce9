use vstd::prelude::*;

verus! {

/// A parsed command line.
#[derive(Debug)]
pub struct Cli {
    pub command: Commands,
}

/// The command groups.
#[derive(Debug)]
pub enum Commands {
    Buckets { commands: BucketCommands },
    Files { commands: FileCommands },
    Multipart { commands: MultpartCommands },
    Provider { commands: ProviderCommands },
    Init {},
}

/// Commands on buckets.
#[derive(Debug)]
pub enum BucketCommands {
    List { custom_provider: Option<String> },
    Create { name: String, region: String, custom_provider: Option<String> },
    Delete { name: String, custom_provider: Option<String> },
}

/// Commands on files in a bucket.
#[derive(Debug)]
pub enum FileCommands {
    List { bucket: String, custom_provider: Option<String> },
    Delete {
        bucket: String,
        key: String,
        custom_provider: Option<String>,
        force: bool,
        yes: bool,
    },
    Download {
        bucket: String,
        key: String,
        location: String,
        custom_provider: Option<String>,
        override_filename: Option<String>,
    },
    Upload {
        bucket: String,
        location: String,
        override_filename: Option<String>,
        custom_provider: Option<String>,
        verbose: bool,
    },
}

/// Commands on incomplete multipart uploads.
#[derive(Debug)]
pub enum MultpartCommands {
    Delete {
        bucket: String,
        all: bool,
        custom_provider: Option<String>,
        key: Option<String>,
        timestamp_id: Option<String>,
    },
    List { bucket: String, custom_provider: Option<String> },
}

/// Commands on the configured providers.
#[derive(Debug)]
pub enum ProviderCommands {
    Get,
    SetProvider { provider_name: String },
}

/// The bucket whose own region a command is sent to, if any.
pub open spec fn spec_regional_bucket(command: Commands) -> Option<String> {
    match command {
        Commands::Buckets { commands } => match commands {
            BucketCommands::Delete { name, .. } => Some(name),
            _ => None,
        },
        Commands::Files { commands } => match commands {
            FileCommands::List { bucket, .. } => Some(bucket),
            FileCommands::Delete { bucket, .. } => Some(bucket),
            FileCommands::Download { bucket, .. } => Some(bucket),
            FileCommands::Upload { bucket, .. } => Some(bucket),
        },
        Commands::Multipart { commands } => match commands {
            MultpartCommands::Delete { bucket, .. } => Some(bucket),
            MultpartCommands::List { bucket, .. } => Some(bucket),
        },
        _ => None,
    }
}

impl Commands {
    /// The bucket whose region the command needs a client for: deleting a
    /// bucket and every file and multipart command go to the bucket's own
    /// region; listing and creating buckets, and the provider and init
    /// commands, use the default client.
    pub fn regional_bucket(&self) -> (bucket: Option<&String>)
        ensures
            match bucket {
                Some(b) => spec_regional_bucket(*self) == Some(*b),
                None => spec_regional_bucket(*self) is None,
            },
    {
        match self {
            Commands::Buckets { commands } => match commands {
                BucketCommands::Delete { name, .. } => Some(name),
                _ => None,
            },
            Commands::Files { commands } => match commands {
                FileCommands::List { bucket, .. } => Some(bucket),
                FileCommands::Delete { bucket, .. } => Some(bucket),
                FileCommands::Download { bucket, .. } => Some(bucket),
                FileCommands::Upload { bucket, .. } => Some(bucket),
            },
            Commands::Multipart { commands } => match commands {
                MultpartCommands::Delete { bucket, .. } => Some(bucket),
                MultpartCommands::List { bucket, .. } => Some(bucket),
            },
            _ => None,
        }
    }
}

/// Which commands go through a client for their bucket's own region: every
/// file command and every multipart command, for the bucket it names, and
/// deleting a bucket, for that bucket; listing and creating buckets, the
/// provider commands and `init` use the default client.
pub proof fn lemma_regional_bucket_of_each_command(
    bucket: String,
    key: String,
    location: String,
    name: String,
    region: String,
    provider_name: String,
    custom_provider: Option<String>,
    override_filename: Option<String>,
    key_opt: Option<String>,
    timestamp_id: Option<String>,
    force: bool,
    yes: bool,
    flag: bool,
)
    ensures
        spec_regional_bucket(Commands::Files { commands: FileCommands::List { bucket, custom_provider } })
            == Some(bucket),
        spec_regional_bucket(
            Commands::Files {
                commands: FileCommands::Delete { bucket, key, custom_provider, force, yes },
            },
        ) == Some(bucket),
        spec_regional_bucket(
            Commands::Files {
                commands: FileCommands::Download {
                    bucket,
                    key,
                    location,
                    custom_provider,
                    override_filename,
                },
            },
        ) == Some(bucket),
        spec_regional_bucket(
            Commands::Files {
                commands: FileCommands::Upload {
                    bucket,
                    location,
                    override_filename,
                    custom_provider,
                    verbose: flag,
                },
            },
        ) == Some(bucket),
        spec_regional_bucket(
            Commands::Multipart {
                commands: MultpartCommands::Delete {
                    bucket,
                    all: flag,
                    custom_provider,
                    key: key_opt,
                    timestamp_id,
                },
            },
        ) == Some(bucket),
        spec_regional_bucket(
            Commands::Multipart { commands: MultpartCommands::List { bucket, custom_provider } },
        ) == Some(bucket),
        spec_regional_bucket(
            Commands::Buckets { commands: BucketCommands::Delete { name, custom_provider } },
        ) == Some(name),
        spec_regional_bucket(
            Commands::Buckets { commands: BucketCommands::List { custom_provider } },
        ) is None,
        spec_regional_bucket(
            Commands::Buckets { commands: BucketCommands::Create { name, region, custom_provider } },
        ) is None,
        spec_regional_bucket(Commands::Provider { commands: ProviderCommands::Get }) is None,
        spec_regional_bucket(
            Commands::Provider { commands: ProviderCommands::SetProvider { provider_name } },
        ) is None,
        spec_regional_bucket(Commands::Init {  }) is None,
{
}

} // verus!
