pub mod coinbase_client;
