//! Plain record types exchanged with the surrounding order-management
//! application: payment-method requests, report filters, and the update
//! service's data. They carry no behaviour beyond their defaults.

use vstd::prelude::*;

verus! {

/// A request to create a payment method.
#[derive(Debug, Clone)]
pub struct PagamentoCreate {
    /// The payment method's name.
    pub nome: String,
    /// An optional description.
    pub descricao: Option<String>,
    /// Whether the method starts active; the store's default applies when
    /// absent.
    pub ativo: Option<bool>,
}

/// A request to change a payment method; absent fields stay unchanged.
#[derive(Debug, Clone)]
pub struct PagamentoUpdate {
    /// A new name, when given.
    pub nome: Option<String>,
    /// A new description, when given.
    pub descricao: Option<String>,
    /// A new active flag, when given.
    pub ativo: Option<bool>,
}

/// The filters of a report query; absent fields leave the axis
/// unrestricted.
#[derive(Debug, Clone)]
pub struct RelatorioFiltros {
    /// Only orders on or after this date.
    pub data_inicio: Option<String>,
    /// Only orders on or before this date.
    pub data_fim: Option<String>,
    /// Only orders of this client.
    pub cliente_id: Option<i64>,
    /// Only orders of this salesperson.
    pub vendedor_id: Option<i64>,
    /// Only orders of this designer.
    pub designer_id: Option<i64>,
    /// Only orders in this status.
    pub status: Option<String>,
}

/// What is known about an available update.
#[derive(Debug, Clone)]
pub struct UpdateInfo {
    /// The version offered.
    pub version: String,
    /// When it was published.
    pub date: String,
    /// Its release notes.
    pub body: String,
    /// Where to download it.
    pub download_url: String,
    /// The signature of the download.
    pub signature: String,
    /// The download's size in bytes.
    pub size: u64,
    /// The individual changelog entries.
    pub changelog: Vec<String>,
}

/// How the update service behaves.
#[derive(Debug, Clone)]
pub struct UpdateSettings {
    /// Check for updates on a schedule.
    pub auto_check: bool,
    /// Download an available update without asking.
    pub auto_download: bool,
    /// Install a downloaded update without asking.
    pub auto_install: bool,
    /// Hours between scheduled checks.
    pub check_interval_hours: u32,
    /// Offer beta versions too.
    pub beta_updates: bool,
    /// When the last check ran, when one ever did.
    pub last_check: Option<String>,
}

impl Default for UpdateSettings {
    /// The stock settings: check daily by hand-off, install nothing
    /// without asking, stay off beta versions.
    fn default() -> (s: UpdateSettings)
        ensures
            s.auto_check == true,
            s.auto_download == false,
            s.auto_install == false,
            s.check_interval_hours == 24,
            s.beta_updates == false,
            s.last_check is None,
    {
        UpdateSettings {
            auto_check: true,
            auto_download: false,
            auto_install: false,
            check_interval_hours: 24,
            beta_updates: false,
            last_check: None,
        }
    }
}

} // verus!
