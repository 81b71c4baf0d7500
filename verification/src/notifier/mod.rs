pub mod email;
