pub mod cmd;
pub mod deps;
pub mod elicitation;
pub mod manifest;
pub mod policy;
pub mod skills;
pub mod text;
pub mod tools;
