//! Data source configuration.

use vstd::prelude::*;
use vstd::string::StringExecFns;

verus! {

/// Types of data sources supported.
#[derive(Debug, Clone, Copy, PartialEq, Eq, Structural)]
pub enum DataSourceType {
    Local,
    Http,
    Database,
    CloudStorage,
    WebSocket,
}

/// Data source configuration: a named source with connection
/// parameters.
#[derive(Debug)]
pub struct DataSourceConfig {
    pub name: String,
    pub source_type: DataSourceType,
    pub connection_params: Vec<(String, String)>,
    pub enabled: bool,
    pub priority: i32,
}

impl DataSourceConfig {
    /// A local directory source.
    pub fn local(name: &str, path: &str) -> (r: DataSourceConfig)
        ensures
            r.name@ == name@,
            r.source_type == DataSourceType::Local,
            r.connection_params@.len() == 1,
            r.connection_params@[0].0@ == "path"@,
            r.connection_params@[0].1@ == path@,
            r.enabled,
            r.priority == 1,
    {
        let mut params: Vec<(String, String)> = Vec::new();
        params.push(("path".to_owned(), path.to_owned()));
        DataSourceConfig {
            name: name.to_owned(),
            source_type: DataSourceType::Local,
            connection_params: params,
            enabled: true,
            priority: 1,
        }
    }

    /// An HTTP API source, with an optional key.
    pub fn http(name: &str, base_url: &str, api_key: Option<&str>) -> (r: DataSourceConfig)
        ensures
            r.name@ == name@,
            r.source_type == DataSourceType::Http,
            r.connection_params@[0].0@ == "base_url"@,
            r.connection_params@[0].1@ == base_url@,
            r.connection_params@.len() == match api_key {
                Some(_) => 2int,
                None => 1int,
            },
            match api_key {
                Some(key) => r.connection_params@[1].0@ == "api_key"@
                    && r.connection_params@[1].1@ == key@,
                None => true,
            },
            r.enabled,
            r.priority == 2,
    {
        let mut params: Vec<(String, String)> = Vec::new();
        params.push(("base_url".to_owned(), base_url.to_owned()));
        match api_key {
            Some(key) => {
                params.push(("api_key".to_owned(), key.to_owned()));
            },
            None => {},
        }
        DataSourceConfig {
            name: name.to_owned(),
            source_type: DataSourceType::Http,
            connection_params: params,
            enabled: true,
            priority: 2,
        }
    }

    /// A database source.
    pub fn database(name: &str, connection_string: &str) -> (r: DataSourceConfig)
        ensures
            r.name@ == name@,
            r.source_type == DataSourceType::Database,
            r.connection_params@.len() == 1,
            r.connection_params@[0].0@ == "connection_string"@,
            r.connection_params@[0].1@ == connection_string@,
            r.enabled,
            r.priority == 3,
    {
        let mut params: Vec<(String, String)> = Vec::new();
        params.push(("connection_string".to_owned(), connection_string.to_owned()));
        DataSourceConfig {
            name: name.to_owned(),
            source_type: DataSourceType::Database,
            connection_params: params,
            enabled: true,
            priority: 3,
        }
    }
}

/// Ready-made configurations for common data sources.
pub struct DataSources;

impl DataSources {
    pub fn sample_data() -> (r: DataSourceConfig)
        ensures
            r.name@ == "sample"@,
            r.source_type == DataSourceType::Local,
    {
        DataSourceConfig::local("sample", "./data/sample")
    }

    pub fn csv_files(path: &str) -> (r: DataSourceConfig)
        ensures
            r.name@ == "csv_files"@,
            r.source_type == DataSourceType::Local,
            r.connection_params@[0].1@ == path@,
    {
        DataSourceConfig::local("csv_files", path)
    }

    pub fn alpha_vantage(api_key: &str) -> (r: DataSourceConfig)
        ensures
            r.name@ == "alpha_vantage"@,
            r.source_type == DataSourceType::Http,
            r.connection_params@[1].1@ == api_key@,
    {
        DataSourceConfig::http("alpha_vantage", "https://www.alphavantage.co/query", Some(api_key))
    }

    pub fn yahoo_finance() -> (r: DataSourceConfig)
        ensures
            r.name@ == "yahoo_finance"@,
            r.source_type == DataSourceType::Http,
    {
        DataSourceConfig::http(
            "yahoo_finance",
            "https://query1.finance.yahoo.com/v8/finance/chart",
            None,
        )
    }

    pub fn polygon_io(api_key: &str) -> (r: DataSourceConfig)
        ensures
            r.name@ == "polygon"@,
            r.source_type == DataSourceType::Http,
            r.connection_params@[1].1@ == api_key@,
    {
        DataSourceConfig::http("polygon", "https://api.polygon.io", Some(api_key))
    }
}

} // verus!
