pub mod stop;
