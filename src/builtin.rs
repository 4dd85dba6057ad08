pub mod get_builtin_environment;
