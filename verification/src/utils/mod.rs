pub mod generate_tx_code;
