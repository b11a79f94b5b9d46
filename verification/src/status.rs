//! The status line: what the launcher tells the user after each action, and
//! the bookkeeping of a RetroArch session (one at a time; a finished session
//! is recorded in the history).
use vstd::prelude::*;

use crate::config::LauncherConfig;
use crate::paths::{file_name_of, opt_view, path_file_name};
use crate::settings::{AddSystemError, DraftError};
use crate::text::{
    cat2, cat3, contains_chars, decimal, decimal_string, signed_decimal, signed_decimal_string,
    to_chars,
};

verus! {

/// A message of the status line.
#[derive(Debug, Clone, PartialEq, Eq)]
pub enum Notice {
    /// The catalogue after a scan: games listed, files scanned, metadata rows refreshed.
    CatalogSummary { games: u64, scanned: u64, metadata: u64 },
    /// At start-up, the ROM folder does not exist.
    RomsDirMissingAtStart(String),
    /// When syncing, the ROM folder does not exist.
    RomsDirMissing(String),
    ConfigReloaded,
    SystemRemoved(String),
    DraftRejected(DraftError),
    SaveFailed(String),
    SavedButDirsFailed(String),
    Saved,
    AddSystemRejected(AddSystemError),
    SystemAdded(String),
    CatalogReloadFailed(String),
    SyncFailed(String),
    HistorySaveFailed(String),
    PlayRecordFailed(String),
    ListReloadFailed(String),
    GameClosed(String),
    RetroArchExit { code: Option<i32>, label: String },
    SessionFailed { label: String, error: String },
    SessionBusy,
    Starting(String),
    FavoriteReloadFailed(String),
    FavoriteSet { file_name: String, value: bool },
    FavoriteFailed(String),
    MetadataReloadFailed(String),
    MetadataUpdated(u64),
    MetadataFailed(String),
}

/// `format!("{:?}", code)` for an exit code: `Some(n)` or `None`.
pub open spec fn code_text(code: Option<i32>) -> Seq<char> {
    match code {
        Some(n) => "Some("@ + signed_decimal(n as int) + ")"@,
        None => "None"@,
    }
}

/// The text of a draft error.
pub open spec fn draft_error_text(e: DraftError) -> Seq<char> {
    match e {
        DraftError::EmptyKey => "Falha ao salvar: existe sistema com chave vazia"@,
        DraftError::DuplicateKey(k) => "Falha ao salvar: chave duplicada '"@ + k@ + "'"@,
        DraftError::EmptyCore(k) => "Falha ao salvar: sistema '"@ + k@ + "' com core padrao vazio"@,
    }
}

/// The text of a refused new system.
pub open spec fn add_system_error_text(e: AddSystemError) -> Seq<char> {
    match e {
        AddSystemError::MissingKey => "Informe a chave do novo sistema"@,
        AddSystemError::AlreadyExists(k) => "Sistema '"@ + k@ + "' ja existe no rascunho"@,
        AddSystemError::MissingCore => "Informe o core padrao do novo sistema"@,
    }
}

/// The text shown for a notice.
pub open spec fn notice_text(n: Notice) -> Seq<char> {
    match n {
        Notice::CatalogSummary { games, scanned, metadata } => decimal(games as nat)
            + " ROM(s) no catálogo ("@ + decimal(scanned as nat) + " atualizada(s) no scan, "@
            + decimal(metadata as nat) + " com metadata)"@,
        Notice::RomsDirMissingAtStart(d) => "Pasta de ROMs não encontrada: "@ + d@,
        Notice::RomsDirMissing(d) => "Pasta de ROMs nao encontrada: "@ + d@,
        Notice::ConfigReloaded => "Configuracoes recarregadas do arquivo"@,
        Notice::SystemRemoved(k) => "Sistema removido do rascunho: "@ + k@,
        Notice::DraftRejected(e) => draft_error_text(e),
        Notice::SaveFailed(e) => "Falha ao salvar configuracoes: "@ + e@,
        Notice::SavedButDirsFailed(e) => "Configuracoes salvas, mas falhou ao criar pastas por sistema: "@ + e@,
        Notice::Saved => "Configuracoes salvas com sucesso"@,
        Notice::AddSystemRejected(e) => add_system_error_text(e),
        Notice::SystemAdded(k) => "Sistema adicionado ao rascunho: "@ + k@,
        Notice::CatalogReloadFailed(e) => "Falha ao recarregar catalogo: "@ + e@,
        Notice::SyncFailed(e) => "Erro ao sincronizar biblioteca: "@ + e@,
        Notice::HistorySaveFailed(e) => "Jogo encerrado, mas nao foi possivel salvar historico: "@ + e@,
        Notice::PlayRecordFailed(e) => "Jogo encerrado, mas falhou ao registrar historico: "@ + e@,
        Notice::ListReloadFailed(e) => "Jogo encerrado, mas falhou ao atualizar lista: "@ + e@,
        Notice::GameClosed(l) => "Jogo encerrado: "@ + l@,
        Notice::RetroArchExit { code, label } => "RetroArch saiu com codigo "@ + code_text(code) + " ("@
            + label@ + ")"@,
        Notice::SessionFailed { label, error } => "Falha ao executar jogo ("@ + label@ + "): "@ + error@,
        Notice::SessionBusy => "Ja existe uma sessao RetroArch em andamento — feche o jogo antes de abrir outro."@,
        Notice::Starting(f) => "Iniciando "@ + f@ + "…"@,
        Notice::FavoriteReloadFailed(e) => "Favorito atualizado, mas falhou ao recarregar: "@ + e@,
        Notice::FavoriteSet { file_name, value } => if value {
            "Marcado como favorito: "@ + file_name@
        } else {
            "Removido dos favoritos: "@ + file_name@
        },
        Notice::FavoriteFailed(e) => "Falha ao atualizar favorito: "@ + e@,
        Notice::MetadataReloadFailed(e) => "Metadata atualizada, mas falhou ao recarregar: "@ + e@,
        Notice::MetadataUpdated(n) => "Metadata offline atualizada para "@ + decimal(n as nat) + " jogo(s)"@,
        Notice::MetadataFailed(e) => "Falha ao atualizar metadata offline: "@ + e@,
    }
}

fn code_string(code: Option<i32>) -> (r: String)
    ensures
        r@ == code_text(code),
{
    match code {
        Some(n) => {
            let digits = signed_decimal_string(n as i64);
            cat3("Some(", digits.as_str(), ")")
        },
        None => "None".to_owned(),
    }
}

fn catalog_summary_string(games: u64, scanned: u64, metadata: u64) -> (r: String)
    ensures
        r@ == decimal(games as nat) + " ROM(s) no catálogo ("@ + decimal(scanned as nat)
            + " atualizada(s) no scan, "@ + decimal(metadata as nat) + " com metadata)"@,
{
    let g = decimal_string(games);
    let s = decimal_string(scanned);
    let m = decimal_string(metadata);
    let a = cat3(g.as_str(), " ROM(s) no catálogo (", s.as_str());
    let b = cat3(a.as_str(), " atualizada(s) no scan, ", m.as_str());
    cat2(b.as_str(), " com metadata)")
}

impl Notice {
    /// The text shown on the status line.
    pub fn text(&self) -> (r: String)
        ensures
            r@ == notice_text(*self),
    {
        match self {
            Notice::CatalogSummary { games, scanned, metadata } => catalog_summary_string(*games, *scanned, *metadata),
            Notice::RomsDirMissingAtStart(d) => cat2("Pasta de ROMs não encontrada: ", d.as_str()),
            Notice::RomsDirMissing(d) => cat2("Pasta de ROMs nao encontrada: ", d.as_str()),
            Notice::ConfigReloaded => "Configuracoes recarregadas do arquivo".to_owned(),
            Notice::SystemRemoved(k) => cat2("Sistema removido do rascunho: ", k.as_str()),
            Notice::DraftRejected(e) => match e {
                DraftError::EmptyKey => "Falha ao salvar: existe sistema com chave vazia".to_owned(),
                DraftError::DuplicateKey(k) => cat3("Falha ao salvar: chave duplicada '", k.as_str(), "'"),
                DraftError::EmptyCore(k) => cat3("Falha ao salvar: sistema '", k.as_str(), "' com core padrao vazio"),
            },
            Notice::SaveFailed(e) => cat2("Falha ao salvar configuracoes: ", e.as_str()),
            Notice::SavedButDirsFailed(e) => cat2(
                "Configuracoes salvas, mas falhou ao criar pastas por sistema: ",
                e.as_str(),
            ),
            Notice::Saved => "Configuracoes salvas com sucesso".to_owned(),
            Notice::AddSystemRejected(e) => match e {
                AddSystemError::MissingKey => "Informe a chave do novo sistema".to_owned(),
                AddSystemError::AlreadyExists(k) => cat3("Sistema '", k.as_str(), "' ja existe no rascunho"),
                AddSystemError::MissingCore => "Informe o core padrao do novo sistema".to_owned(),
            },
            Notice::SystemAdded(k) => cat2("Sistema adicionado ao rascunho: ", k.as_str()),
            Notice::CatalogReloadFailed(e) => cat2("Falha ao recarregar catalogo: ", e.as_str()),
            Notice::SyncFailed(e) => cat2("Erro ao sincronizar biblioteca: ", e.as_str()),
            Notice::HistorySaveFailed(e) => cat2("Jogo encerrado, mas nao foi possivel salvar historico: ", e.as_str()),
            Notice::PlayRecordFailed(e) => cat2("Jogo encerrado, mas falhou ao registrar historico: ", e.as_str()),
            Notice::ListReloadFailed(e) => cat2("Jogo encerrado, mas falhou ao atualizar lista: ", e.as_str()),
            Notice::GameClosed(l) => cat2("Jogo encerrado: ", l.as_str()),
            Notice::RetroArchExit { code, label } => {
                let c = code_string(*code);
                let head = cat3("RetroArch saiu com codigo ", c.as_str(), " (");
                cat3(head.as_str(), label.as_str(), ")")
            },
            Notice::SessionFailed { label, error } => {
                let head = cat3("Falha ao executar jogo (", label.as_str(), "): ");
                cat2(head.as_str(), error.as_str())
            },
            Notice::SessionBusy => "Ja existe uma sessao RetroArch em andamento — feche o jogo antes de abrir outro.".to_owned(),
            Notice::Starting(f) => cat3("Iniciando ", f.as_str(), "…"),
            Notice::FavoriteReloadFailed(e) => cat2("Favorito atualizado, mas falhou ao recarregar: ", e.as_str()),
            Notice::FavoriteSet { file_name, value } => if *value {
                cat2("Marcado como favorito: ", file_name.as_str())
            } else {
                cat2("Removido dos favoritos: ", file_name.as_str())
            },
            Notice::FavoriteFailed(e) => cat2("Falha ao atualizar favorito: ", e.as_str()),
            Notice::MetadataReloadFailed(e) => cat2("Metadata atualizada, mas falhou ao recarregar: ", e.as_str()),
            Notice::MetadataUpdated(n) => {
                let d = decimal_string(*n);
                cat3("Metadata offline atualizada para ", d.as_str(), " jogo(s)")
            },
            Notice::MetadataFailed(e) => cat2("Falha ao atualizar metadata offline: ", e.as_str()),
        }
    }
}

/// A status text is shown as an error when it mentions `Falha` or `Erro`.
pub open spec fn is_error_text(s: Seq<char>) -> bool {
    crate::text::contains_sub(s, "Falha"@) || crate::text::contains_sub(s, "Erro"@)
}

/// Whether the status line is drawn in the error colour.
pub fn status_is_error(status: &str) -> (r: bool)
    ensures
        r == is_error_text(status@),
{
    let cs = to_chars(status);
    let falha = to_chars("Falha");
    let erro = to_chars("Erro");
    contains_chars(cs.as_slice(), falha.as_slice()) || contains_chars(cs.as_slice(), erro.as_slice())
}

/// The first status after start-up: the catalogue summary when the ROM
/// folder exists, otherwise the missing folder.
pub fn startup_notice(roms_dir_exists: bool, roms_dir: &str, games: u64, scanned: u64, metadata: u64) -> (r: Notice)
    ensures
        roms_dir_exists ==> (r == (Notice::CatalogSummary { games, scanned, metadata })),
        !roms_dir_exists ==> (r matches Notice::RomsDirMissingAtStart(d) && d@ == roms_dir@),
{
    if roms_dir_exists {
        Notice::CatalogSummary { games, scanned, metadata }
    } else {
        Notice::RomsDirMissingAtStart(roms_dir.to_owned())
    }
}

/// The label of a ROM in session messages: its file name, or `ROM`.
pub open spec fn session_label(rom_path: Seq<char>) -> Seq<char> {
    match file_name_of(rom_path) {
        Some(n) => n,
        None => "ROM"@,
    }
}

/// The label of a ROM in session messages.
pub fn session_label_for(rom_path: &str) -> (r: String)
    ensures
        r@ == session_label(rom_path@),
{
    match path_file_name(rom_path) {
        Some(n) => n,
        None => "ROM".to_owned(),
    }
}

/// Asks to start a RetroArch session. Only one runs at a time: while one is
/// running the request is refused with `SessionBusy`; otherwise the session
/// is marked as running and `Starting` names the game. Returns whether to
/// start it.
pub fn begin_session(busy: &mut bool, file_name: &str) -> (r: (bool, Notice))
    ensures
        *old(busy) ==> !r.0 && r.1 == Notice::SessionBusy && *final(busy),
        !*old(busy) ==> r.0 && *final(busy) && (r.1 matches Notice::Starting(f) && f@ == file_name@),
{
    if *busy {
        return (false, Notice::SessionBusy);
    }
    *busy = true;
    (true, Notice::Starting(file_name.to_owned()))
}

/// How a RetroArch session ended.
#[derive(Debug, Clone, PartialEq, Eq)]
pub enum SessionEnd {
    /// RetroArch ran and exited; `success` when its status was a success.
    Exited { success: bool, code: Option<i32> },
    /// RetroArch could not be run.
    Failed(String),
}

/// What follows the end of a session.
#[derive(Debug, Clone, PartialEq, Eq)]
pub enum AfterSession {
    /// The game ended well: save the configuration (its history now names the
    /// ROM), count the play in the catalogue, reload the lists, and report
    /// `GameClosed(label)`.
    Record { label: String },
    /// Report this notice and nothing else.
    Report(Notice),
}

/// Handles the end of a session: the running mark is cleared; a successful
/// exit makes the ROM the last game played; an unsuccessful exit or a
/// failure to run is reported with the ROM's label.
pub fn finish_session(busy: &mut bool, config: &mut LauncherConfig, rom_path: &str, end: SessionEnd) -> (r: AfterSession)
    ensures
        !*final(busy),
        final(config).retroarch == old(config).retroarch,
        final(config).library == old(config).library,
        final(config).systems == old(config).systems,
        match end {
            SessionEnd::Exited { success: true, code: _ } => {
                &&& opt_view(final(config).history.last_game_path) == Some(rom_path@)
                &&& r matches AfterSession::Record { label } && label@ == session_label(rom_path@)
            },
            SessionEnd::Exited { success: false, code } => {
                &&& final(config).history == old(config).history
                &&& r matches AfterSession::Report(Notice::RetroArchExit { code: c, label })
                    && c == code && label@ == session_label(rom_path@)
            },
            SessionEnd::Failed(err) => {
                &&& final(config).history == old(config).history
                &&& r matches AfterSession::Report(Notice::SessionFailed { label, error })
                    && label@ == session_label(rom_path@) && error == err
            },
        },
{
    *busy = false;
    let label = session_label_for(rom_path);
    match end {
        SessionEnd::Exited { success, code } => {
            if success {
                config.history.last_game_path = Some(rom_path.to_owned());
                AfterSession::Record { label }
            } else {
                AfterSession::Report(Notice::RetroArchExit { code, label })
            }
        },
        SessionEnd::Failed(error) => AfterSession::Report(Notice::SessionFailed { label, error }),
    }
}

} // verus!
