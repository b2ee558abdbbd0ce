pub mod actix_web_route;
pub mod assign;
