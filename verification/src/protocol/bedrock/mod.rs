pub mod raknet;
