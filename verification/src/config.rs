//! Configuration of the two deployments, from the values of their
//! environment variables.

use vstd::prelude::*;
use vstd::string::*;

verus! {

/// Configuration for local/monolith deployment.
#[derive(Clone, Debug)]
pub struct LocalConfig {
    /// HTTP server bind address
    pub addr: String,
    /// HTTP server port
    pub port: String,
    /// Redis connection URL
    pub redis_url: String,
    /// Directory for file uploads and HLS output
    pub upload_dir: String,
    /// Access key ID for S3-compatible API authentication
    pub aws_access_key_id: String,
    /// Secret access key for S3-compatible API authentication
    pub aws_secret_access_key: String,
}

/// Configuration for serverless deployment.
#[derive(Clone, Debug)]
pub struct AwsConfig {
    /// S3 bucket for video storage
    pub s3_bucket: String,
    /// SQS queue URL for job messages
    pub sqs_queue_url: String,
    /// DynamoDB table name for video state
    pub dynamodb_table: String,
}

/// A required variable that is not set.
#[derive(Debug, Clone, Copy, PartialEq, Eq, Structural)]
pub enum ConfigError {
    MissingS3Bucket,
    MissingSqsQueueUrl,
    MissingDynamodbTable,
}

/// The value of a variable, or `default` where it is not set.
pub open spec fn value_or(value: Option<String>, default: Seq<char>) -> Seq<char> {
    match value {
        Some(v) => v@,
        None => default,
    }
}

fn or_default(value: Option<String>, default: &str) -> (text: String)
    ensures
        text@ == value_or(value, default@),
{
    match value {
        Some(v) => v,
        None => String::from_str(default),
    }
}

impl LocalConfig {
    /// The local configuration for the given values of `ADDR`, `PORT`,
    /// `REDIS_URL`, `UPLOAD_DIR`, `AWS_ACCESS_KEY_ID` and
    /// `AWS_SECRET_ACCESS_KEY`, each with its default where it is not set.
    pub fn from_vars(
        addr: Option<String>,
        port: Option<String>,
        redis_url: Option<String>,
        upload_dir: Option<String>,
        aws_access_key_id: Option<String>,
        aws_secret_access_key: Option<String>,
    ) -> (config: Self)
        ensures
            config.addr@ == value_or(addr, "127.0.0.1"@),
            config.port@ == value_or(port, "3000"@),
            config.redis_url@ == value_or(redis_url, "redis://127.0.0.1/"@),
            config.upload_dir@ == value_or(upload_dir, "./"@),
            config.aws_access_key_id@ == value_or(aws_access_key_id, "minioadmin"@),
            config.aws_secret_access_key@ == value_or(aws_secret_access_key, "minioadmin"@),
    {
        LocalConfig {
            addr: or_default(addr, "127.0.0.1"),
            port: or_default(port, "3000"),
            redis_url: or_default(redis_url, "redis://127.0.0.1/"),
            upload_dir: or_default(upload_dir, "./"),
            aws_access_key_id: or_default(aws_access_key_id, "minioadmin"),
            aws_secret_access_key: or_default(aws_secret_access_key, "minioadmin"),
        }
    }
}

impl AwsConfig {
    /// The serverless configuration for the given values of `S3_BUCKET`,
    /// `SQS_QUEUE_URL` and `DYNAMODB_TABLE`. All three are required; the
    /// error names the first that is not set.
    pub fn from_vars(
        s3_bucket: Option<String>,
        sqs_queue_url: Option<String>,
        dynamodb_table: Option<String>,
    ) -> (result: Result<Self, ConfigError>)
        ensures
            s3_bucket is None <==> result == Err::<Self, ConfigError>(
                ConfigError::MissingS3Bucket,
            ),
            s3_bucket is Some && sqs_queue_url is None <==> result == Err::<Self, ConfigError>(
                ConfigError::MissingSqsQueueUrl,
            ),
            s3_bucket is Some && sqs_queue_url is Some && dynamodb_table is None <==> result
                == Err::<Self, ConfigError>(ConfigError::MissingDynamodbTable),
            s3_bucket is Some && sqs_queue_url is Some && dynamodb_table is Some <==> result is Ok,
            result is Ok ==> result->Ok_0.s3_bucket == s3_bucket->Some_0 && result->Ok_0.sqs_queue_url
                == sqs_queue_url->Some_0 && result->Ok_0.dynamodb_table == dynamodb_table->Some_0,
    {
        let s3_bucket = match s3_bucket {
            Some(v) => v,
            None => {
                return Err(ConfigError::MissingS3Bucket);
            },
        };
        let sqs_queue_url = match sqs_queue_url {
            Some(v) => v,
            None => {
                return Err(ConfigError::MissingSqsQueueUrl);
            },
        };
        let dynamodb_table = match dynamodb_table {
            Some(v) => v,
            None => {
                return Err(ConfigError::MissingDynamodbTable);
            },
        };
        Ok(AwsConfig { s3_bucket, sqs_queue_url, dynamodb_table })
    }
}

} // verus!
