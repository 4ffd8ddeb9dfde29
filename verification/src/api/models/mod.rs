pub mod pagination;
pub mod requests;
pub mod responses;

pub use pagination::{
    default_limit, default_page, PaginatedResponse, PaginationMeta, PaginationQuery,
};
pub use requests::{
    default_limit_10, CompaniesQuery, LatestPricesQuery, SearchQuery, StockPricesQuery,
    TopPerformersQuery,
};
pub use responses::{ApiResponse, CompanyResponse, HealthResponse};
