[package]
name = "solana_fork_engine"
version = "0.4.0"
edition = "2021"
publish = false

[dependencies]
litesvm = "=0.15.0"
agave-feature-set = "=4.1.1"
agave-reserved-account-keys = "=4.1.1"
solana-builtins = "=4.1.1"
solana-compute-budget = "=4.1.1"
solana-compute-budget-instruction = "=4.1.1"
solana-fee = "=4.1.1"
solana-program-runtime = "=4.1.1"
solana-svm-callback = "=4.1.1"
solana-svm-log-collector = "=4.1.1"
solana-svm-timings = "=4.1.1"
solana-svm-transaction = "=4.1.1"
solana-syscalls = "=4.1.1"
solana-system-program = "=4.1.1"
solana-transaction-context = "=4.1.1"
solana-account = "=4.7.0"
solana-pubkey = "=3.0.0"
solana-keypair = "=3.1.2"
solana-signer = "=3.0.1"
solana-message = "=4.6.0"
solana-transaction = { version = "=4.3.0", features = ["serde", "verify"] }
solana-instruction = "=3.5.1"
solana-system-interface = "=3.3.0"
spl-token = "8"
serde = { version = "1", features = ["derive"] }
serde_json = "1"
base64 = "0.22"
bs58 = "0.5"
bincode = "1"
