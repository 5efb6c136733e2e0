//! The Soulseek tab: signing in, searching, downloading.

use vstd::prelude::*;
use vstd::string::*;

use crate::app::flow::{failed_with, Ask, Effect, EffectView, Flow, Next};
use crate::app::playback::result_view;
use crate::app::state::{App, AppView, ContentPane, SoulseekTabView};
use crate::audio::AudioEngine;
use crate::model::Focus;
use crate::order::views;
use crate::path_codec::{show_path, shown_path};
use crate::soulseek::{
    name_part, RowView, SoulseekFormat, SoulseekHit, SoulseekPhase, SoulseekRowKind, SoulseekScope,
    SoulseekUi, SoulseekView,
};
use crate::soulseek_session::{
    download_dir, downloads_folder, SoulseekCommand, SoulseekCredentials, SoulseekEvent,
};
use crate::text::{append_decimal, decimal, trim, trimmed};

verus! {

/// What the session is told for each of some hits.
pub open spec fn download_effects(hits: Seq<SoulseekHit>) -> Seq<EffectView> {
    hits.map_values(
        |hit: SoulseekHit|
            EffectView::Download { username: hit.username@, name: hit.name@, size: hit.size },
    )
}

/// What hiding is reported as.
pub open spec fn hidden_label(row: Option<RowView>, scope: SoulseekScope) -> Seq<char> {
    match row {
        None => Seq::empty(),
        Some(row) => match scope {
            SoulseekScope::File => match row.hit {
                Some(hit) => name_part(hit.name@),
                None => "file"@,
            },
            SoulseekScope::Folder => match row.folder {
                Some(folder) => folder,
                None => "folder"@,
            },
            SoulseekScope::User => row.username,
        },
    }
}

impl AppView {
    pub open spec fn with_ui(self, ui: SoulseekView) -> AppView {
        AppView { soulseek: SoulseekTabView { ui, ..self.soulseek }, ..self }
    }

    /// A line in the status bar and in the tab.
    pub open spec fn soulseek_said(self, message: Seq<char>) -> AppView {
        self.said(message).with_ui(SoulseekView { status: message, ..self.soulseek.ui })
    }

    /// A line in the tab alone.
    pub open spec fn tab_said(self, message: Seq<char>) -> AppView {
        self.with_ui(SoulseekView { status: message, ..self.soulseek.ui })
    }

    /// The number of results shown anew, where there are any.
    pub open spec fn filter_reported(self) -> AppView {
        if self.soulseek.ui.hits.len() == 0 {
            self
        } else {
            self.soulseek_said(self.soulseek.ui.summary())
        }
    }

    pub open spec fn format_set(self, format: SoulseekFormat) -> AppView {
        if self.panes.soulseek_open {
            self.focused(Focus::SoulseekFilter).with_ui(
                self.soulseek.ui.with_format(format),
            ).filter_reported()
        } else {
            self
        }
    }

    pub open spec fn format_cycled(self, delta: int) -> AppView {
        if self.panes.soulseek_open {
            let shown = self.focused(Focus::SoulseekFilter);
            (if delta != 0 {
                shown.with_ui(
                    self.soulseek.ui.with_format(self.soulseek.ui.filter.format.cycled(delta)),
                )
            } else {
                shown
            }).filter_reported()
        } else {
            self
        }
    }

    pub open spec fn slots_toggled(self) -> AppView {
        self.with_ui(self.soulseek.ui.with_slots_toggled()).filter_reported()
    }

    pub open spec fn free_slot_toggled(self) -> AppView {
        if self.panes.soulseek_open {
            self.focused(Focus::SoulseekFilter).slots_toggled()
        } else {
            self
        }
    }

    /// What a scope takes downloaded.
    pub open spec fn downloading(self, scope: SoulseekScope) -> AppView {
        let hits = self.soulseek.ui.scope_hits(scope);
        if hits.len() == 0 {
            self
        } else if !self.soulseek.session {
            self.soulseek_said("Soulseek is not connected"@)
        } else {
            let label = if hits.len() == 1 {
                name_part(hits[0].name@)
            } else {
                decimal(hits.len()) + " files"@
            };
            let said = self.soulseek_said("Downloading "@ + label + "…"@);
            AppView {
                soulseek: SoulseekTabView {
                    downloads_active: if self.soulseek.downloads_active + hits.len()
                        > usize::MAX {
                        usize::MAX as int
                    } else {
                        self.soulseek.downloads_active + hits.len()
                    },
                    ..said.soulseek
                },
                outbox: self.outbox + download_effects(hits),
                ..said
            }
        }
    }

    pub open spec fn scope_hidden(self, scope: SoulseekScope) -> AppView {
        self.with_ui(self.soulseek.ui.hidden(scope)).soulseek_said(
            "Hidden "@ + hidden_label(self.soulseek.ui.current(), scope),
        )
    }

    /// The scope that a row stands for.
    pub open spec fn row_scope(kind: SoulseekRowKind) -> SoulseekScope {
        match kind {
            SoulseekRowKind::File => SoulseekScope::File,
            SoulseekRowKind::Folder => SoulseekScope::Folder,
            SoulseekRowKind::User => SoulseekScope::User,
        }
    }

    /// The tab opened; the session is started where credentials are known.
    pub open spec fn soulseek_opened(self, post: AppView, flow: Flow) -> bool {
        let shown = self.pane_shown(ContentPane::Soulseek);
        if self.soulseek.session {
            &&& flow is Done
            &&& post == shown.with_ui(
                SoulseekView { phase: SoulseekPhase::Ready, ..self.soulseek.ui },
            )
        } else {
            &&& post == shown
            &&& flow matches Flow::Ask(
                Ask::LoadSoulseekCredentials,
                Next::SoulseekCredentialsLoaded,
            )
        }
    }

    /// Whether the player waits for the library folders before it starts a session.
    pub open spec fn roots_asked(
        flow: Flow,
        credentials: SoulseekCredentials,
        from_prompt: bool,
    ) -> bool {
        flow matches Flow::Ask(
            Ask::LoadRoots,
            Next::SoulseekRoots { credentials: kept, from_prompt: prompted },
        ) && kept == credentials && prompted == from_prompt
    }

    pub open spec fn after_credentials(
        self,
        known: Option<SoulseekCredentials>,
        post: AppView,
        flow: Flow,
    ) -> bool {
        &&& post == self
        &&& match known {
            Some(credentials) => AppView::roots_asked(flow, credentials, false),
            None => flow is Done,
        }
    }

    /// A session started; the prompt becomes a search.
    pub open spec fn session_started(
        self,
        credentials: SoulseekCredentials,
        download: Seq<char>,
        from_prompt: bool,
    ) -> AppView {
        let told = self.told(
            EffectView::StartSoulseek {
                username: credentials.username@,
                password: credentials.password@,
                download_dir: download,
            },
        );
        let ready = AppView {
            soulseek: SoulseekTabView {
                session: true,
                ui: SoulseekView::fresh(),
                ..self.soulseek
            },
            ..told.said("Connecting to Soulseek…"@)
        };
        if from_prompt {
            ready.focused(Focus::SoulseekQuery)
        } else {
            ready
        }
    }

    /// What follows once the library folders are known.
    pub open spec fn after_soulseek_roots(
        self,
        roots: Result<Seq<Seq<char>>, Seq<char>>,
        credentials: SoulseekCredentials,
        from_prompt: bool,
        post: AppView,
        flow: Flow,
    ) -> bool {
        match roots {
            Err(error) => post == self && failed_with(flow, error),
            Ok(roots) => {
                let download = downloads_folder(self.link.data_dir, roots);
                if roots.len() == 0 {
                    &&& post == self
                    &&& flow matches Flow::Ask(
                        Ask::AddRoots { paths },
                        Next::SoulseekRootAdded {
                            credentials: kept,
                            download: folder,
                            from_prompt: prompted,
                        },
                    ) && views(paths@) == seq![download] && kept == credentials && folder@
                        == download && prompted == from_prompt
                } else {
                    &&& post == self.session_started(credentials, download, from_prompt)
                    &&& flow is Done
                }
            },
        }
    }

    pub open spec fn after_soulseek_root(
        self,
        stored: Result<(), Seq<char>>,
        credentials: SoulseekCredentials,
        download: Seq<char>,
        from_prompt: bool,
        post: AppView,
        flow: Flow,
    ) -> bool {
        match stored {
            Err(error) => post == self && failed_with(flow, error),
            Ok(()) => flow is Done && post == self.session_started(
                credentials,
                download,
                from_prompt,
            ),
        }
    }

    /// What is typed at the prompt taken over.
    pub open spec fn soulseek_activated(self, post: AppView, flow: Flow) -> bool {
        let ui = self.soulseek.ui;
        match ui.phase {
            SoulseekPhase::Username => {
                &&& flow is Done
                &&& post == if trimmed(ui.username).len() == 0 {
                    self.tab_said("Username required"@)
                } else {
                    self.with_ui(
                        SoulseekView {
                            phase: SoulseekPhase::Password,
                            status: "Password"@,
                            ..ui
                        },
                    ).focused(Focus::SoulseekQuery)
                }
            },
            SoulseekPhase::Password => if trimmed(ui.username).len() == 0 || ui.password.len()
                == 0 {
                post == self.tab_said("Username and password required"@) && flow is Done
            } else {
                &&& post == self
                &&& flow matches Flow::Ask(
                    Ask::SaveSoulseekCredentials(asked),
                    Next::SoulseekCredentialsSaved(kept),
                ) && asked.username@ == trimmed(ui.username) && asked.password@ == ui.password
                    && kept == asked
            },
            SoulseekPhase::Ready => {
                &&& flow is Done
                &&& post == if self.lists.focus == Focus::SoulseekQuery {
                    self.searched()
                } else {
                    match ui.current() {
                        None => self,
                        Some(row) => if row.kind == SoulseekRowKind::File {
                            self.downloading(SoulseekScope::File)
                        } else {
                            self.with_ui(ui.toggled(None))
                        },
                    }
                }
            },
        }
    }

    /// A search begun.
    pub open spec fn searched(self) -> AppView {
        let ui = self.soulseek.ui;
        let query = trimmed(ui.query);
        if query.len() == 0 {
            self
        } else {
            let cleared = self.with_ui(
                SoulseekView {
                    hits: Seq::empty(),
                    collapsed: Set::empty(),
                    selected: 0,
                    status: "Searching “"@ + query + "”…"@,
                    ..ui
                },
            );
            if self.soulseek.session {
                cleared.told(EffectView::Search(query))
            } else {
                cleared.soulseek_said("Soulseek is not connected"@)
            }
        }
    }

    pub open spec fn after_credentials_saved(
        self,
        stored: Result<(), Seq<char>>,
        credentials: SoulseekCredentials,
        post: AppView,
        flow: Flow,
    ) -> bool {
        &&& post == self
        &&& match stored {
            Err(error) => failed_with(flow, error),
            Ok(()) => AppView::roots_asked(flow, credentials, true),
        }
    }

    pub open spec fn one_download_less(self) -> AppView {
        AppView {
            soulseek: SoulseekTabView {
                downloads_active: if self.soulseek.downloads_active == 0 {
                    0
                } else {
                    self.soulseek.downloads_active - 1
                },
                ..self.soulseek
            },
            ..self
        }
    }

    /// What follows an event of the session.
    pub open spec fn soulseek_followed(
        self,
        event: SoulseekEvent,
        post: AppView,
        flow: Flow,
    ) -> bool {
        match event {
            SoulseekEvent::Ready => flow is Done && post == self.said("Soulseek ready"@).with_ui(
                SoulseekView {
                    status: "Type a search and press Enter"@,
                    phase: SoulseekPhase::Ready,
                    ..self.soulseek.ui
                },
            ),
            SoulseekEvent::SearchResults(hits) => flow is Done && post == {
                let found = self.soulseek.ui.with_hits(hits@);
                let shown = self.with_ui(
                    SoulseekView {
                        status: if hits@.len() == 0 {
                            "No matching files"@
                        } else {
                            found.summary()
                        },
                        ..found
                    },
                );
                if self.panes.soulseek_open {
                    shown.focused(Focus::Playlist)
                } else {
                    shown
                }
            },
            SoulseekEvent::Status(message) => flow is Done && post == self.soulseek_said(message@),
            SoulseekEvent::Finished(path) => self.one_download_less().soulseek_said(
                "Downloaded "@ + shown_path(path@),
            ).paths_asked(seq![path@], post, flow),
            SoulseekEvent::DownloadFailed(message) => flow is Done && post
                == self.one_download_less().soulseek_said("Soulseek: "@ + message@).tab_said(
                message@,
            ),
            SoulseekEvent::Error(message) => flow is Done && post == self.soulseek_said(
                "Soulseek: "@ + message@,
            ).tab_said(message@),
        }
    }
}

impl<E: AudioEngine> App<E> {
    /// Shows a line in the status bar and in the tab.
    pub(crate) fn set_soulseek_status(&mut self, message: String)
        ensures
            final(self)@ == old(self)@.soulseek_said(message@),
    {
        self.front.status = message.clone();
        self.soulseek.ui.status = message;
    }

    /// Shows the number of results anew, where there are any.
    pub fn soulseek_refresh_filter_status(&mut self)
        ensures
            final(self)@ == old(self)@.filter_reported(),
    {
        if self.soulseek.ui.hits.len() == 0 {
            return;
        }
        let status = self.soulseek.ui.results_status();
        self.set_soulseek_status(status);
    }

    pub fn apply_soulseek_format(&mut self, format: SoulseekFormat)
        ensures
            final(self)@ == old(self)@.format_set(format),
    {
        if self.panes.soulseek_open {
            self.lists.focus = Focus::SoulseekFilter;
            self.soulseek.ui.set_format(format);
            self.soulseek_refresh_filter_status();
        }
    }

    pub fn cycle_soulseek_format(&mut self, delta: i32)
        ensures
            final(self)@ == old(self)@.format_cycled(delta as int),
    {
        if self.panes.soulseek_open {
            self.lists.focus = Focus::SoulseekFilter;
            if delta != 0 {
                self.soulseek.ui.cycle_format(delta);
            }
            self.soulseek_refresh_filter_status();
        }
    }

    pub(crate) fn toggle_slots(&mut self)
        ensures
            final(self)@ == old(self)@.slots_toggled(),
    {
        self.soulseek.ui.toggle_free_slot();
        self.soulseek_refresh_filter_status();
    }

    pub fn toggle_soulseek_free_slot(&mut self)
        ensures
            final(self)@ == old(self)@.free_slot_toggled(),
    {
        if self.panes.soulseek_open {
            self.lists.focus = Focus::SoulseekFilter;
            self.toggle_slots();
        }
    }

    fn tell_downloads(&mut self, hits: &Vec<SoulseekHit>)
        ensures
            final(self)@ == (AppView {
                outbox: old(self)@.outbox + download_effects(hits@),
                ..old(self)@
            }),
    {
        let ghost start = self@;
        let ghost effects = download_effects(hits@);
        let mut i: usize = 0;
        assert(self@.outbox =~= start.outbox + effects.take(0));
        while i < hits.len()
            invariant
                i <= hits@.len(),
                effects == download_effects(hits@),
                self@ == (AppView { outbox: start.outbox + effects.take(i as int), ..start }),
            decreases hits@.len() - i,
        {
            let hit = &hits[i];
            self.outbox.tell(
                Effect::Soulseek(
                    SoulseekCommand::Download {
                        username: hit.username.clone(),
                        name: hit.name.clone(),
                        size: hit.size,
                    },
                ),
            );
            i = i + 1;
            assert(self@.outbox =~= start.outbox + effects.take(i as int));
        }
        assert(effects.take(i as int) =~= effects);
    }

    /// Downloads what a scope takes.
    pub fn soulseek_download(&mut self, scope: SoulseekScope)
        ensures
            final(self)@ == old(self)@.downloading(scope),
    {
        let hits = self.soulseek.ui.hits_in_scope(scope);
        if hits.len() == 0 {
            return;
        }
        if !self.soulseek.session {
            self.set_soulseek_status("Soulseek is not connected".to_owned());
            return;
        }
        let mut text = "Downloading ".to_owned();
        if hits.len() == 1 {
            let name = hits[0].file_name();
            text.append(&name);
        } else {
            append_decimal(&mut text, hits.len() as u64);
            text.append(" files");
        }
        text.append("…");
        assert(text@ =~= "Downloading "@ + (if hits@.len() == 1 {
            name_part(hits@[0].name@)
        } else {
            decimal(hits@.len()) + " files"@
        }) + "…"@);
        self.set_soulseek_status(text);
        self.soulseek.downloads_active = self.soulseek.downloads_active.saturating_add(hits.len());
        self.tell_downloads(&hits);
    }

    fn hidden_label(&self, scope: SoulseekScope) -> (label: String)
        ensures
            label@ == hidden_label(self@.soulseek.ui.current(), scope),
    {
        let row = match self.soulseek.ui.current_row() {
            Some(row) => row,
            None => {
                let empty = String::new();
                assert(empty@ =~= Seq::empty());
                return empty;
            },
        };
        match scope {
            SoulseekScope::File => match &row.hit {
                Some(hit) => hit.file_name(),
                None => "file".to_owned(),
            },
            SoulseekScope::Folder => match &row.folder {
                Some(folder) => folder.clone(),
                None => "folder".to_owned(),
            },
            SoulseekScope::User => row.username,
        }
    }

    /// Hides what a scope takes.
    pub fn soulseek_hide(&mut self, scope: SoulseekScope)
        ensures
            final(self)@ == old(self)@.scope_hidden(scope),
    {
        let label = self.hidden_label(scope);
        self.soulseek.ui.hide_scope(scope);
        let mut text = "Hidden ".to_owned();
        text.append(&label);
        self.set_soulseek_status(text);
    }

    /// Opens the tab.
    pub fn open_soulseek_tab(&mut self) -> (flow: Flow)
        requires
            old(self)@.wf(),
        ensures
            old(self)@.soulseek_opened(final(self)@, flow),
            final(self)@.wf(),
    {
        self.show_pane(ContentPane::Soulseek);
        if self.soulseek.session {
            self.soulseek.ui.phase = SoulseekPhase::Ready;
            return Flow::Done;
        }
        Flow::Ask(Ask::LoadSoulseekCredentials, Next::SoulseekCredentialsLoaded)
    }

    /// Goes on with the credentials that are known.
    pub fn soulseek_credentials_loaded(&self, known: Option<SoulseekCredentials>) -> (flow: Flow)
        ensures
            self@.after_credentials(known, self@, flow),
    {
        match known {
            Some(credentials) => Flow::Ask(
                Ask::LoadRoots,
                Next::SoulseekRoots { credentials, from_prompt: false },
            ),
            None => Flow::Done,
        }
    }

    fn start_soulseek(
        &mut self,
        credentials: SoulseekCredentials,
        download: String,
        from_prompt: bool,
    )
        ensures
            final(self)@ == old(self)@.session_started(credentials, download@, from_prompt),
    {
        self.outbox.tell(Effect::StartSoulseek { credentials, download_dir: download });
        self.front.status = "Connecting to Soulseek…".to_owned();
        self.soulseek.session = true;
        self.soulseek.ui = SoulseekUi::ready();
        if from_prompt {
            self.lists.focus = Focus::SoulseekQuery;
        }
    }

    /// Starts a session, the library folders being known.
    pub fn soulseek_roots(
        &mut self,
        roots: Result<Vec<String>, String>,
        credentials: SoulseekCredentials,
        from_prompt: bool,
    ) -> (flow: Flow)
        ensures
            old(self)@.after_soulseek_roots(
                match roots {
                    Ok(roots) => Ok(views(roots@)),
                    Err(error) => Err(error@),
                },
                credentials,
                from_prompt,
                final(self)@,
                flow,
            ),
    {
        let roots = match roots {
            Ok(roots) => roots,
            Err(error) => {
                return Flow::Failed(error);
            },
        };
        assert(views(roots@).len() == roots@.len());
        let download = download_dir(&self.link.data_dir, &roots);
        if roots.len() == 0 {
            let mut paths: Vec<String> = Vec::new();
            paths.push(download.clone());
            assert(views(paths@) =~= seq![download@]);
            return Flow::Ask(
                Ask::AddRoots { paths },
                Next::SoulseekRootAdded { credentials, download, from_prompt },
            );
        }
        self.start_soulseek(credentials, download, from_prompt);
        Flow::Done
    }

    /// Starts a session, its download folder being a library folder now.
    pub fn soulseek_root_added(
        &mut self,
        stored: Result<(), String>,
        credentials: SoulseekCredentials,
        download: String,
        from_prompt: bool,
    ) -> (flow: Flow)
        ensures
            old(self)@.after_soulseek_root(
                result_view(stored),
                credentials,
                download@,
                from_prompt,
                final(self)@,
                flow,
            ),
    {
        if let Err(error) = stored {
            return Flow::Failed(error);
        }
        self.start_soulseek(credentials, download, from_prompt);
        Flow::Done
    }

    fn search(&mut self)
        ensures
            final(self)@ == old(self)@.searched(),
    {
        let query = trim(&self.soulseek.ui.query);
        if query.as_str().is_empty() {
            return;
        }
        let mut text = "Searching “".to_owned();
        text.append(&query);
        text.append("”…");
        self.soulseek.ui.hits = Vec::new();
        self.soulseek.ui.collapsed.clear();
        self.soulseek.ui.selected = 0;
        self.soulseek.ui.status = text;
        if self.soulseek.session {
            self.outbox.tell(Effect::Soulseek(SoulseekCommand::Search(query)));
        } else {
            self.set_soulseek_status("Soulseek is not connected".to_owned());
        }
    }

    /// Takes over what is typed at the prompt, or acts on the row under the cursor.
    pub fn soulseek_activate(&mut self) -> (flow: Flow)
        ensures
            old(self)@.soulseek_activated(final(self)@, flow),
            old(self)@.wf() ==> final(self)@.wf(),
    {
        match self.soulseek.ui.phase {
            SoulseekPhase::Username => {
                let name = trim(&self.soulseek.ui.username);
                if name.as_str().is_empty() {
                    self.soulseek.ui.status = "Username required".to_owned();
                } else {
                    self.soulseek.ui.phase = SoulseekPhase::Password;
                    self.soulseek.ui.status = "Password".to_owned();
                    self.lists.focus = Focus::SoulseekQuery;
                }
                Flow::Done
            },
            SoulseekPhase::Password => {
                let username = trim(&self.soulseek.ui.username);
                let password = self.soulseek.ui.password.clone();
                if username.as_str().is_empty() || password.as_str().is_empty() {
                    self.soulseek.ui.status = "Username and password required".to_owned();
                    return Flow::Done;
                }
                let credentials = SoulseekCredentials { username, password };
                Flow::Ask(
                    Ask::SaveSoulseekCredentials(credentials.clone()),
                    Next::SoulseekCredentialsSaved(credentials),
                )
            },
            SoulseekPhase::Ready => {
                if self.lists.focus == Focus::SoulseekQuery {
                    self.search();
                } else {
                    match self.soulseek.ui.selected_kind() {
                        Some(SoulseekRowKind::File) => self.soulseek_download(SoulseekScope::File),
                        Some(_) => {
                            self.soulseek.ui.toggle(None);
                        },
                        None => {},
                    }
                }
                Flow::Done
            },
        }
    }

    /// Goes on once credentials have been stored.
    pub fn soulseek_credentials_saved(
        &self,
        stored: Result<(), String>,
        credentials: SoulseekCredentials,
    ) -> (flow: Flow)
        ensures
            self@.after_credentials_saved(result_view(stored), credentials, self@, flow),
    {
        if let Err(error) = stored {
            return Flow::Failed(error);
        }
        Flow::Ask(Ask::LoadRoots, Next::SoulseekRoots { credentials, from_prompt: true })
    }

    fn session_ready(&mut self)
        ensures
            old(self)@.soulseek_followed(SoulseekEvent::Ready, final(self)@, Flow::Done),
            final(self)@.shelf == old(self)@.shelf,
            final(self)@.transport == old(self)@.transport,
    {
        self.front.status = "Soulseek ready".to_owned();
        self.soulseek.ui.status = "Type a search and press Enter".to_owned();
        self.soulseek.ui.phase = SoulseekPhase::Ready;
    }

    fn show_results(&mut self, hits: Vec<SoulseekHit>)
        ensures
            old(self)@.soulseek_followed(
                SoulseekEvent::SearchResults(hits),
                final(self)@,
                Flow::Done,
            ),
            final(self)@.shelf == old(self)@.shelf,
            final(self)@.transport == old(self)@.transport,
    {
        let none = hits.len() == 0;
        self.soulseek.ui.set_hits(hits);
        let status = if none {
            "No matching files".to_owned()
        } else {
            self.soulseek.ui.results_status()
        };
        self.soulseek.ui.status = status;
        if self.panes.soulseek_open {
            self.lists.focus = Focus::Playlist;
        }
    }

    fn end_download(&mut self)
        ensures
            final(self)@ == old(self)@.one_download_less(),
    {
        self.soulseek.downloads_active = self.soulseek.downloads_active.saturating_sub(1);
    }

    fn report_trouble(&mut self, message: String)
        ensures
            final(self)@ == old(self)@.soulseek_said("Soulseek: "@ + message@).tab_said(message@),
    {
        let mut text = "Soulseek: ".to_owned();
        text.append(&message);
        self.set_soulseek_status(text);
        self.soulseek.ui.status = message;
    }

    /// Follows an event of the session.
    pub fn process_soulseek_event(&mut self, event: SoulseekEvent) -> (flow: Flow)
        ensures
            old(self)@.soulseek_followed(event, final(self)@, flow),
            old(self)@.wf() ==> final(self)@.wf(),
    {
        match event {
            SoulseekEvent::Ready => {
                self.session_ready();
                Flow::Done
            },
            SoulseekEvent::SearchResults(hits) => {
                self.show_results(hits);
                Flow::Done
            },
            SoulseekEvent::Status(message) => {
                self.set_soulseek_status(message);
                Flow::Done
            },
            SoulseekEvent::Finished(path) => {
                self.end_download();
                let mut text = "Downloaded ".to_owned();
                text.append(&show_path(&path));
                self.set_soulseek_status(text);
                let ghost name = path@;
                let mut paths: Vec<String> = Vec::new();
                paths.push(path);
                assert(views(paths@) =~= seq![name]);
                self.add_paths(paths)
            },
            SoulseekEvent::DownloadFailed(message) => {
                self.end_download();
                self.report_trouble(message);
                Flow::Done
            },
            SoulseekEvent::Error(message) => {
                self.report_trouble(message);
                Flow::Done
            },
        }
    }
}

} // verus!
