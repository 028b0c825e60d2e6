pub mod lan9252;
pub mod lan9252_cst;
pub mod sim;
