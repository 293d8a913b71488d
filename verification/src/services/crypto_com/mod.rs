pub mod crypto_com_client;
