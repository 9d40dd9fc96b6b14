pub mod sfu_routes;
