//! The structured shapes of the indexer service's requests and replies.
//!
//! These are plain data: the gateway only carries them between the wire
//! and the upstream provider. The translation itself is I/O glue and lives
//! outside the library.

use vstd::prelude::*;

use std::collections::HashMap;

verus! {

/// The chains the indexer aggregation calls can be asked about.
#[derive(Debug, Clone, PartialEq, Eq, Hash)]
pub enum Blockchain {
    Arbitrum,
    Base,
    Eth,
    EthSepolia,
    Linea,
    Optimism,
}

/// A block position: a concrete number, or the newest or oldest block.
#[derive(Debug, Clone)]
pub enum BlockReference {
    Number(u64),
    Latest,
    Earliest,
}

impl core::default::Default for BlockReference {
    /// The default block position is the newest block.
    fn default() -> (r: BlockReference)
        ensures
            r is Latest,
    {
        BlockReference::Latest
    }
}

#[derive(Debug, Clone)]
pub struct SyncStatus {
    pub timestamp: u64,
    pub lag: String,
    pub status: String,
}

#[derive(Debug, Clone)]
pub struct MethodInput {
    pub name: String,
    pub type_: String,
    pub size: u32,
    pub value_decoded: String,
}

#[derive(Debug, Clone)]
pub struct Method {
    pub name: String,
    pub inputs: Vec<MethodInput>,
    pub string_: String,
    pub signature: String,
    pub id: String,
    pub verified: bool,
}

#[derive(Debug, Clone)]
pub struct EventInput {
    pub name: String,
    pub type_: String,
    pub indexed: bool,
    pub size: u32,
    pub value_decoded: String,
}

#[derive(Debug, Clone)]
pub struct Event {
    pub name: String,
    pub inputs: Vec<EventInput>,
    pub anonymous: bool,
    pub string_: String,
    pub signature: String,
    pub id: String,
    pub verified: bool,
}

#[derive(Debug, Clone)]
pub struct Log {
    pub blockchain: Blockchain,
    pub address: String,
    pub topics: Vec<String>,
    pub data: String,
    pub block_number: String,
    pub transaction_hash: String,
    pub transaction_index: String,
    pub block_hash: String,
    pub log_index: String,
    pub removed: bool,
    pub event: Option<Event>,
}

#[derive(Debug, Clone)]
pub struct Transaction {
    pub v: Option<String>,
    pub r: Option<String>,
    pub s: Option<String>,
    pub nonce: Option<String>,
    pub block_number: String,
    pub from: String,
    pub to: Option<String>,
    pub gas: Option<String>,
    pub gas_price: Option<String>,
    pub input: Option<String>,
    pub transaction_index: String,
    pub block_hash: String,
    pub value: String,
    pub type_: Option<String>,
    pub contract_address: Option<String>,
    pub cumulative_gas_used: Option<String>,
    pub gas_used: Option<String>,
    pub logs: Option<Vec<Log>>,
    pub hash: Option<String>,
    pub status: Option<String>,
    pub blockchain: Option<String>,
    pub timestamp: Option<String>,
    pub method: Option<Method>,
}

#[derive(Debug, Clone)]
pub struct GetTransactionsByAddressReply {
    pub transactions: Vec<Transaction>,
    pub next_page_token: String,
    pub sync_status: Option<SyncStatus>,
}

#[derive(Debug, Clone)]
pub struct GetTransactionsByAddressRequest {
    pub from_block: Option<BlockReference>,
    pub to_block: Option<BlockReference>,
    pub from_timestamp: Option<BlockReference>,
    pub to_timestamp: Option<BlockReference>,
    pub blockchain: Vec<Blockchain>,
    pub address: Vec<String>,
    pub page_token: Option<String>,
    pub page_size: Option<u32>,
    pub desc_order: Option<bool>,
    pub include_logs: Option<bool>,
    pub sync_check: Option<bool>,
}

#[derive(Debug, Clone)]
pub struct GetLogsReply {
    pub next_page_token: Option<String>,
    pub logs: Vec<Log>,
    pub sync_status: Option<SyncStatus>,
}

#[derive(Debug, Clone)]
pub struct BlockchainStats {
    pub blockchain: String,
    pub total_transactions_count: u64,
    pub total_events_count: u64,
    pub latest_block_number: u64,
    pub block_time_ms: u64,
    pub native_coin_usd_price: String,
}

#[derive(Debug, Clone)]
pub struct GetBlockchainStatsReply {
    pub stats: Vec<BlockchainStats>,
    pub sync_status: Option<SyncStatus>,
}

#[derive(Debug, Clone)]
pub struct GetBlockchainStatsRequest {
    pub blockchain: Option<Vec<Blockchain>>,
    pub sync_check: Option<bool>,
}

#[derive(Debug, Clone)]
pub struct GetInteractionsReply {
    pub blockchains: Vec<String>,
    pub sync_status: Option<SyncStatus>,
}

#[derive(Debug, Clone)]
pub struct GetInteractionsRequest {
    pub address: String,
    pub sync_check: Option<bool>,
}

#[derive(Debug, Clone)]
pub struct Balance {
    pub blockchain: Blockchain,
    pub token_name: String,
    pub token_symbol: String,
    pub token_decimals: u32,
    pub token_type: String,
    pub contract_address: Option<String>,
    pub holder_address: String,
    pub balance: String,
    pub balance_raw_integer: String,
    pub balance_usd: String,
    pub token_price: String,
    pub thumbnail: String,
}

#[derive(Debug, Clone)]
pub struct GetAccountBalanceReply {
    pub next_page_token: Option<String>,
    pub total_balance_usd: String,
    pub total_count: u32,
    pub assets: Vec<Balance>,
    pub sync_status: Option<SyncStatus>,
}

#[derive(Debug, Clone)]
pub struct GetAccountBalanceRequest {
    pub blockchain: Option<Vec<Blockchain>>,
    pub wallet_address: String,
    pub only_whitelisted: Option<bool>,
    pub native_first: Option<bool>,
    pub page_token: Option<String>,
    pub page_size: Option<u32>,
    pub sync_check: Option<bool>,
}

#[derive(Debug, Clone)]
pub struct GetTokenPriceReply {
    pub usd_price: String,
    pub blockchain: Blockchain,
    pub contract_address: Option<String>,
    pub sync_status: Option<SyncStatus>,
}

#[derive(Debug, Clone)]
pub struct GetTokenPriceRequest {
    pub blockchain: Blockchain,
    pub contract_address: Option<String>,
    pub sync_check: Option<bool>,
}

#[derive(Debug, Clone)]
pub struct HolderBalance {
    pub holder_address: String,
    pub balance: String,
    pub balance_raw_integer: String,
}

#[derive(Debug, Clone)]
pub struct GetTokenHoldersReply {
    pub blockchain: Blockchain,
    pub contract_address: String,
    pub token_decimals: u32,
    pub holders: Vec<HolderBalance>,
    pub holders_count: u64,
    pub next_page_token: String,
    pub sync_status: Option<SyncStatus>,
}

#[derive(Debug, Clone)]
pub struct GetTokenHoldersRequest {
    pub blockchain: Blockchain,
    pub contract_address: String,
    pub page_token: Option<String>,
    pub page_size: Option<u32>,
    pub sync_check: Option<bool>,
}

#[derive(Debug, Clone)]
pub struct DailyHolderCount {
    pub holder_count: u64,
    pub total_amount: String,
    pub total_amount_raw_integer: String,
    pub last_updated_at: String,
}

#[derive(Debug, Clone)]
pub struct GetTokenHoldersCountReply {
    pub blockchain: Blockchain,
    pub contract_address: String,
    pub token_decimals: u32,
    pub holder_count_history: Vec<DailyHolderCount>,
    pub next_page_token: String,
    pub latest_holders_count: u64,
    pub sync_status: Option<SyncStatus>,
}

#[derive(Debug, Clone)]
pub struct GetTokenHoldersCountRequest {
    pub blockchain: Blockchain,
    pub contract_address: String,
    pub page_token: Option<String>,
    pub page_size: Option<u32>,
    pub sync_check: Option<bool>,
}

#[derive(Debug, Clone)]
pub struct CurrencyDetailsExtended {
    pub blockchain: Blockchain,
    pub address: Option<String>,
    pub name: String,
    pub decimals: u32,
    pub symbol: String,
    pub thumbnail: String,
}

#[derive(Debug, Clone)]
pub struct GetCurrenciesReply {
    pub currencies: Vec<CurrencyDetailsExtended>,
    pub sync_status: Option<SyncStatus>,
}

#[derive(Debug, Clone)]
pub struct GetCurrenciesRequest {
    pub blockchain: Blockchain,
    pub sync_check: Option<bool>,
}

#[derive(Debug, Clone)]
pub struct TokenTransfer {
    pub from_address: Option<String>,
    pub to_address: Option<String>,
    pub contract_address: Option<String>,
    pub value: String,
    pub value_raw_integer: String,
    pub blockchain: String,
    pub token_name: String,
    pub token_symbol: String,
    pub token_decimals: u32,
    pub thumbnail: String,
    pub transaction_hash: String,
    pub block_height: u64,
    pub timestamp: u64,
    pub direction: Option<String>,
}

#[derive(Debug, Clone)]
pub struct GetTokenTransfersReply {
    pub next_page_token: Option<String>,
    pub transfers: Vec<TokenTransfer>,
    pub sync_status: Option<SyncStatus>,
}

#[derive(Debug, Clone)]
pub struct GetTransfersRequest {
    pub from_block: Option<BlockReference>,
    pub to_block: Option<BlockReference>,
    pub from_timestamp: Option<BlockReference>,
    pub to_timestamp: Option<BlockReference>,
    pub blockchain: Vec<Blockchain>,
    pub address: Option<Vec<String>>,
    pub page_token: Option<String>,
    pub page_size: Option<u32>,
    pub desc_order: Option<bool>,
    pub sync_check: Option<bool>,
}

#[derive(Debug, Clone)]
pub struct Trait {
    pub trait_type: String,
    pub value: String,
}

/// The contract standards an NFT can follow.
#[derive(Debug, Clone)]
pub enum ContractType {
    Erc721,
    Erc1155,
    Undefined,
}

#[derive(Debug, Clone)]
pub struct Nft {
    pub blockchain: Blockchain,
    pub name: String,
    pub token_id: String,
    pub token_url: String,
    pub image_url: String,
    pub collection_name: String,
    pub symbol: String,
    pub contract_type: ContractType,
    pub contract_address: String,
    pub quantity: Option<String>,
    pub traits: Option<Vec<Trait>>,
}

#[derive(Debug, Clone)]
pub struct GetNFTsByOwnerReply {
    pub owner: String,
    pub assets: Vec<Nft>,
    pub next_page_token: String,
    pub sync_status: Option<SyncStatus>,
}

/// A trait filter: each entry maps a trait name to the accepted values.
pub type NftFilter = Vec<HashMap<String, Vec<String>>>;

#[derive(Debug, Clone)]
pub struct GetNFTsByOwnerRequest {
    pub blockchain: Option<Vec<Blockchain>>,
    pub filter: Option<NftFilter>,
    pub wallet_address: String,
    pub page_token: Option<String>,
    pub page_size: Option<u32>,
    pub sync_check: Option<bool>,
}

#[derive(Debug, Clone)]
pub struct NftAttributes {
    pub token_url: String,
    pub image_url: String,
    pub name: String,
    pub description: String,
    pub traits: Option<Vec<Trait>>,
    pub contract_type: ContractType,
}

#[derive(Debug, Clone)]
pub struct NftMetadata {
    pub blockchain: Blockchain,
    pub contract_address: String,
    pub token_id: String,
    pub contract_type: ContractType,
    pub collection_name: String,
    pub collection_symbol: String,
}

#[derive(Debug, Clone)]
pub struct GetNFTMetadataReply {
    pub metadata: Option<NftMetadata>,
    pub attributes: Option<NftAttributes>,
    pub sync_status: Option<SyncStatus>,
}

#[derive(Debug, Clone)]
pub struct GetNFTMetadataRequest {
    pub blockchain: Blockchain,
    pub contract_address: String,
    pub token_id: String,
    pub force_fetch: bool,
    pub sync_check: Option<bool>,
}

#[derive(Debug, Clone)]
pub struct GetNFTHoldersReply {
    pub holders: Vec<String>,
    pub next_page_token: String,
    pub sync_status: Option<SyncStatus>,
}

#[derive(Debug, Clone)]
pub struct GetNFTHoldersRequest {
    pub blockchain: Blockchain,
    pub contract_address: String,
    pub page_token: Option<String>,
    pub page_size: Option<u32>,
    pub sync_check: Option<bool>,
}

#[derive(Debug, Clone)]
pub struct NftTransfer {
    pub from_address: String,
    pub to_address: String,
    pub contract_address: Option<String>,
    pub value: String,
    pub token_id: Option<String>,
    pub type_: ContractType,
    pub blockchain: Blockchain,
    pub transaction_hash: String,
    pub collection_name: String,
    pub collection_symbol: String,
    pub name: String,
    pub image_url: String,
    pub block_height: u64,
    pub timestamp: u64,
}

#[derive(Debug, Clone)]
pub struct GetNftTransfersReply {
    pub next_page_token: Option<String>,
    pub transfers: Vec<NftTransfer>,
    pub sync_status: Option<SyncStatus>,
}

#[derive(Debug, Clone)]
pub struct GetTokenAllowancesRequest {
    pub blockchain: Vec<Blockchain>,
    pub wallet_address: String,
    pub spender_address: Option<String>,
    pub contract_address: Option<String>,
}

#[derive(Debug, Clone)]
pub struct ERC20TokenAllowance {
    pub wallet_address: Option<String>,
    pub spender_address: Option<String>,
    pub contract_address: Option<String>,
    pub value: Option<String>,
    pub token_decimals: Option<u32>,
    pub block_height: u64,
    pub timestamp: u64,
    pub transaction_hash: Option<String>,
    pub blockchain: Option<String>,
    pub token_name: Option<String>,
    pub token_symbol: Option<String>,
    pub thumbnail: String,
    pub raw_log: Option<Log>,
}

#[derive(Debug, Clone)]
pub struct GetTokenAllowancesReply {
    pub allowances: Vec<ERC20TokenAllowance>,
}

#[derive(Debug, Clone)]
pub struct GetTokenPriceHistoryRequest {
    pub blockchain: Blockchain,
    pub contract_address: String,
    pub from_timestamp: Option<BlockReference>,
    pub to_timestamp: Option<BlockReference>,
    pub interval: Option<u64>,
    pub limit: Option<u32>,
    pub sync_check: Option<bool>,
}

#[derive(Debug, Clone)]
pub struct Quote {
    pub timestamp: u64,
    pub block_height: u64,
    pub usd_price: String,
}

#[derive(Debug, Clone)]
pub struct GetTokenPriceHistoryReply {
    pub quotes: Vec<Quote>,
    pub sync_status: Option<SyncStatus>,
}

#[derive(Debug, Clone)]
pub struct ExplainTokenPriceRequest {
    pub blockchain: Blockchain,
    pub token_address: String,
    pub block_height: BlockReference,
}

#[derive(Debug, Clone)]
pub struct PriceEstimate {
    pub strategy: String,
    pub price: String,
}

#[derive(Debug, Clone)]
pub struct ExplainTokenPriceLPDetails {
    pub address: String,
    pub token_0: String,
    pub token_1: String,
    pub last_updated_block: u64,
    pub reserve_0: String,
    pub reserve_1: String,
    pub price: String,
}

#[derive(Debug, Clone)]
pub struct ExplainTokenPriceTokenDetails {
    pub contract_address: String,
    pub decimals: u32,
    pub name: String,
    pub symbol: String,
}

#[derive(Debug, Clone)]
pub struct ExplainTokenPriceSinglePair {
    pub token_0: ExplainTokenPriceTokenDetails,
    pub token_1: ExplainTokenPriceTokenDetails,
    pub liquidity_pools: Vec<ExplainTokenPriceLPDetails>,
    pub price_estimates: Vec<PriceEstimate>,
}

#[derive(Debug, Clone)]
pub struct ExplainTokenPriceReply {
    pub blockchain: String,
    pub token_address: String,
    pub pairs: Vec<ExplainTokenPriceSinglePair>,
    pub price_estimates: Vec<PriceEstimate>,
}

#[derive(Debug, Clone)]
pub struct GetInternalTransactionsByParentHashRequest {
    pub blockchain: Blockchain,
    pub parent_transaction_hash: String,
    pub only_with_value: bool,
    pub sync_check: Option<bool>,
}

#[derive(Debug, Clone)]
pub struct GetInternalTransactionsByBlockNumberRequest {
    pub blockchain: Blockchain,
    pub block_number: u64,
    pub only_with_value: bool,
    pub sync_check: Option<bool>,
}

#[derive(Debug, Clone)]
pub struct InternalTransaction {
    pub blockchain: Blockchain,
    pub call_type: String,
    pub transaction_hash: String,
    pub block_height: u64,
    pub block_hash: String,
    pub from_address: String,
    pub contract_address: Option<String>,
    pub to_address: String,
    pub value: String,
    pub gas: u64,
    pub gas_used: u64,
    pub timestamp: String,
    pub transaction_index: u32,
    pub call_path: Option<String>,
    pub call_stack: Option<Vec<u32>>,
    pub error: Option<String>,
    pub input: String,
    pub output: String,
}

#[derive(Debug, Clone)]
pub struct GetInternalTransactionsReply {
    pub internal_transactions: Vec<InternalTransaction>,
    pub next_page_token: Option<String>,
}

#[derive(Debug, Clone)]
pub struct GetAccountBalanceHistoricalRequest {
    pub blockchain: Option<Vec<Blockchain>>,
    pub wallet_address: String,
    pub only_whitelisted: Option<bool>,
    pub native_first: Option<bool>,
    pub page_token: Option<String>,
    pub page_size: Option<u32>,
    pub block_height: Option<BlockReference>,
    pub sync_check: Option<bool>,
}

#[derive(Debug, Clone)]
pub struct GetAccountBalanceHistoricalReply {
    pub next_page_token: Option<String>,
    pub total_balance_usd: String,
    pub total_count: u32,
    pub assets: Vec<Balance>,
    pub sync_status: Option<SyncStatus>,
    pub block_height: Option<BlockReference>,
}

/// The identity claims carried in an issued access token.
#[derive(Debug, Clone)]
pub struct Claims {
    /// The caller's device identity, chosen by the client.
    pub sub: String,
    /// When the token was issued, seconds since the epoch.
    pub iat: usize,
    /// When the token expires, seconds since the epoch.
    pub exp: usize,
}

} // verus!
