use vm_environment::crawler_config::{NFTMetadataCrawlerConfig, ServerConfig, ServerContext};

#[derive(Debug, Clone, PartialEq)]
struct ParserSettings {
    bucket: String,
}

#[derive(Debug, Clone, PartialEq)]
struct UploaderSettings {
    account: String,
}

fn config(
    server_config: ServerConfig<ParserSettings, UploaderSettings>,
) -> NFTMetadataCrawlerConfig<ParserSettings, UploaderSettings> {
    NFTMetadataCrawlerConfig {
        database_url: "postgres://localhost/crawler".to_string(),
        server_port: 8080,
        server_config,
    }
}

#[test]
fn parser_reports_itself_as_parser() {
    let config = config(ServerConfig::Parser(ParserSettings { bucket: "nft".to_string() }));
    assert_eq!(config.get_server_name(), "parser");
}

#[test]
fn asset_uploader_reports_itself_as_asset_uploader() {
    let config =
        config(ServerConfig::AssetUploader(UploaderSettings { account: "main".to_string() }));
    assert_eq!(config.get_server_name(), "asset_uploader");
}

#[test]
fn configuration_can_be_copied() {
    let config = config(ServerConfig::Parser(ParserSettings { bucket: "nft".to_string() }));
    let copy = config.clone();
    assert_eq!(copy.database_url, "postgres://localhost/crawler");
    assert_eq!(copy.server_port, 8080);
    assert!(matches!(copy.server_config, ServerConfig::Parser(ref settings) if settings.bucket == "nft"));
}

#[test]
fn context_is_one_of_the_two_servers() {
    let context: ServerContext<u8, u16> = ServerContext::AssetUploader(7);
    assert!(matches!(context.clone(), ServerContext::AssetUploader(7)));
    let context: ServerContext<u8, u16> = ServerContext::Parser(3);
    assert!(matches!(context, ServerContext::Parser(3)));
}
