pub mod tab;
