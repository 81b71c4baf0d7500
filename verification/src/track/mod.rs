pub mod payment;
