//! Numeric core of an order-management system: fixed-point decimal
//! arithmetic, Brazilian-locale currency formatting and parsing, dimension
//! and money validation, batch aggregation, and identifier checks.
//!
//! Decimal quantities are carried as integer counts of hundredths (a money
//! value in cents, a length in hundredths of a centimeter), so every
//! computation here is exact integer arithmetic; a caller that works in
//! floating point converts at the boundary by rounding to the nearest
//! hundredth.

pub mod area;
pub mod batch;
pub mod cache;
pub mod cpf;
pub mod digits;
pub mod email;
pub mod formatting;
pub mod models;
pub mod money;
pub mod validation;

pub use area::AreaResult;
pub use area::Dimension;
pub use area::calculate_area;
pub use area::calculate_batch_areas;
pub use batch::BatchCalculationResult;
pub use batch::IlhosConfig;
pub use batch::ProductionItem;
pub use batch::process_production_batch;
pub use cache::CalculationCache;
pub use cpf::is_valid_cpf;
pub use digits::extract_digits;
pub use email::is_valid_email;
pub use formatting::format_brazilian_decimal;
pub use formatting::format_brazilian_money;
pub use formatting::format_number_with_dots;
pub use models::PagamentoCreate;
pub use models::PagamentoUpdate;
pub use models::RelatorioFiltros;
pub use models::UpdateInfo;
pub use models::UpdateSettings;
pub use money::MoneyValue;
pub use money::calculate_total_money;
pub use money::parse_brazilian_money;
pub use validation::ValidationResult;
pub use validation::validate_dimensions;
pub use validation::validate_ilhos_config;
pub use validation::validate_money_value;
