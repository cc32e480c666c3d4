//! The configuration of the NFT metadata crawler.
//!
//! A crawler process runs one of two servers, the parser or the asset
//! uploader. What each server is configured with, and what it holds while it
//! runs, is its own matter: the types here take both as parameters.

use vstd::prelude::*;

verus! {

/// Which server a process runs, with that server's configuration.
#[derive(Debug, Clone)]
pub enum ServerConfig<P, A> {
    Parser(P),
    AssetUploader(A),
}

/// The configuration of a crawler process.
#[derive(Debug, Clone)]
pub struct NFTMetadataCrawlerConfig<P, A> {
    pub database_url: String,
    pub server_port: u16,
    pub server_config: ServerConfig<P, A>,
}

/// What a running server holds.
#[derive(Clone)]
pub enum ServerContext<P, A> {
    Parser(P),
    AssetUploader(A),
}

impl<P, A> ServerConfig<P, A> {
    /// The name of the server that this configuration is for.
    pub open spec fn server_name(&self) -> Seq<char> {
        match *self {
            ServerConfig::Parser(_) => "parser"@,
            ServerConfig::AssetUploader(_) => "asset_uploader"@,
        }
    }
}

impl<P, A> NFTMetadataCrawlerConfig<P, A> {
    /// The name under which the process reports itself: that of the server
    /// it runs.
    pub fn get_server_name(&self) -> (name: String)
        ensures
            name@ == self.server_config.server_name(),
    {
        match &self.server_config {
            ServerConfig::Parser(_) => "parser".to_owned(),
            ServerConfig::AssetUploader(_) => "asset_uploader".to_owned(),
        }
    }
}

} // verus!
