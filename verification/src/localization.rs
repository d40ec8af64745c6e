//! Interface texts in English and Turkish.
use vstd::prelude::*;

use crate::text::{chars_equal, chars_of, to_lower};

verus! {

/// Interface language.
#[derive(Debug, Clone, Copy, PartialEq, Eq, Structural)]
pub enum Language {
    English,
    Turkish,
}

/// The locale that decides the language: the first of `LANG`, `LC_ALL` and
/// `LC_MESSAGES` that is set.
pub open spec fn chosen_locale(
    lang: Option<Seq<char>>,
    lc_all: Option<Seq<char>>,
    lc_messages: Option<Seq<char>>,
) -> Option<Seq<char>> {
    if lang is Some {
        lang
    } else if lc_all is Some {
        lc_all
    } else {
        lc_messages
    }
}

/// Turkish when the chosen locale, lowercased, starts with `tr`; English
/// otherwise.
pub open spec fn language_of(locale: Option<Seq<char>>) -> Language {
    match locale {
        Some(l) => if crate::text::has_prefix(crate::text::lower_text(l), seq!['t', 'r']) {
            Language::Turkish
        } else {
            Language::English
        },
        None => Language::English,
    }
}

impl Language {
    /// Chooses the language from the values of `LANG`, `LC_ALL` and
    /// `LC_MESSAGES` (`None` for a variable that is not set).
    pub fn detect(lang: Option<&str>, lc_all: Option<&str>, lc_messages: Option<&str>) -> (r:
        Language)
        ensures
            r == language_of(chosen_locale(
                crate::text::opt_str(lang),
                crate::text::opt_str(lc_all),
                crate::text::opt_str(lc_messages),
            )),
    {
        let chosen = if lang.is_some() {
            lang
        } else if lc_all.is_some() {
            lc_all
        } else {
            lc_messages
        };
        match chosen {
            Some(l) => {
                let low = to_lower(l);
                let v = chars_of(low.as_str());
                let p: Vec<char> = vec!['t', 'r'];
                if crate::text::starts_with(&v, &p) {
                    Language::Turkish
                } else {
                    Language::English
                }
            },
            None => Language::English,
        }
    }
}

fn is_key(k: &Vec<char>, lit: &str) -> (r: bool)
    ensures
        r == (k@ == lit@),
{
    chars_equal(k, &chars_of(lit))
}

/// The English text for a translation key; an unknown key is its own text.
pub open spec fn en_text(key: Seq<char>) -> Seq<char> {
    if key == "tab_processes"@ {
        "☰  Processes"@
    } else if key == "tab_performance"@ {
        "📈  Performance"@
    } else if key == "tab_services"@ {
        "⚙  Services"@
    } else if key == "tab_startup"@ {
        "⚡  Startup Apps"@
    } else if key == "tab_connections"@ {
        "🌐  Connections"@
    } else if key == "tab_file_locks"@ {
        "🔒  File Locks"@
    } else if key == "tab_about"@ {
        "ℹ  System Info"@
    } else if key == "display_backend"@ {
        "Display Backend:"@
    } else if key == "btn_refresh"@ {
        "🔄 Refresh"@
    } else if key == "btn_refresh_list"@ {
        "🔄 Refresh List"@
    } else if key == "label_search"@ {
        "🔍 Search:"@
    } else if key == "proc_tree_view"@ {
        "🌳 Tree View"@
    } else if key == "proc_hdr_pid"@ {
        "PID"@
    } else if key == "proc_hdr_name"@ {
        "Name"@
    } else if key == "proc_hdr_cpu"@ {
        "CPU%"@
    } else if key == "proc_hdr_ram"@ {
        "RAM%"@
    } else if key == "proc_hdr_read"@ {
        "Disk Read"@
    } else if key == "proc_hdr_write"@ {
        "Disk Write"@
    } else if key == "proc_hdr_user"@ {
        "User"@
    } else if key == "proc_hdr_path"@ {
        "Path"@
    } else if key == "proc_search_hint"@ {
        "Filter processes by name, PID, or user..."@
    } else if key == "menu_terminate"@ {
        "⏹  Terminate Task"@
    } else if key == "menu_force_terminate"@ {
        "🛡  Force Terminate (Admin)"@
    } else if key == "menu_open_location"@ {
        "📂  Open File Location"@
    } else if key == "menu_search_web"@ {
        "🔍  Search Web"@
    } else if key == "menu_properties"@ {
        "📝  Properties"@
    } else if key == "modal_proc_details"@ {
        "Process Details"@
    } else if key == "modal_ppid"@ {
        "Parent PID:"@
    } else if key == "modal_status"@ {
        "Status:"@
    } else if key == "modal_virt"@ {
        "Virtual Memory:"@
    } else if key == "modal_cmdline"@ {
        "Command Line:"@
    } else if key == "modal_owner"@ {
        "Owner User:"@
    } else if key == "btn_copy"@ {
        "📋 Copy to Clipboard"@
    } else if key == "btn_close"@ {
        "Close"@
    } else if key == "svc_search_hint"@ {
        "Search service name or description..."@
    } else if key == "svc_hdr_name"@ {
        "Service Name"@
    } else if key == "svc_hdr_load"@ {
        "Load State"@
    } else if key == "svc_hdr_active"@ {
        "Active State"@
    } else if key == "svc_hdr_sub"@ {
        "Sub State"@
    } else if key == "svc_hdr_desc"@ {
        "Description"@
    } else if key == "svc_no_matches"@ {
        "No matching services found"@
    } else if key == "menu_svc_start"@ {
        "▶  Start Service"@
    } else if key == "menu_svc_stop"@ {
        "⏹  Stop Service"@
    } else if key == "menu_svc_restart"@ {
        "🔄  Restart Service"@
    } else if key == "menu_svc_enable"@ {
        "⚡  Enable on Startup"@
    } else if key == "menu_svc_disable"@ {
        "❌  Disable on Startup"@
    } else if key == "start_title"@ {
        "Startup Applications"@
    } else if key == "start_subtitle"@ {
        "Manage system-wide and user-specific autostart application entries."@
    } else if key == "start_no_entries"@ {
        "No startup entries found"@
    } else if key == "start_hdr_status"@ {
        "Status"@
    } else if key == "start_hdr_app"@ {
        "Application Name"@
    } else if key == "start_hdr_cmd"@ {
        "Launch Command"@
    } else if key == "start_hdr_loc"@ {
        "Location"@
    } else if key == "start_hdr_details"@ {
        "Details"@
    } else if key == "status_enabled"@ {
        "Enabled"@
    } else if key == "status_disabled"@ {
        "Disabled"@
    } else if key == "loc_user"@ {
        "User Local"@
    } else if key == "loc_system"@ {
        "System Wide"@
    } else if key == "conn_title"@ {
        "Active Network Connections Map"@
    } else if key == "conn_subtitle"@ {
        "Real-time TCP & UDP socket mapping to local process owners."@
    } else if key == "conn_hdr_proto"@ {
        "Protocol"@
    } else if key == "conn_hdr_local"@ {
        "Local Endpoint"@
    } else if key == "conn_hdr_remote"@ {
        "Remote Endpoint"@
    } else if key == "conn_hdr_state"@ {
        "State"@
    } else if key == "conn_hdr_owner"@ {
        "Process Owner"@
    } else if key == "lock_title"@ {
        "File Open & Lock Tracker"@
    } else if key == "lock_subtitle"@ {
        "Search open file descriptors to find which active processes are holding handles on specified paths."@
    } else if key == "lock_search_hint"@ {
        "Enter absolute file/directory path..."@
    } else if key == "lock_btn_scan"@ {
        "Scan Path Handle"@
    } else if key == "lock_no_matches"@ {
        "No processes holding handles on this path"@
    } else if key == "lock_hdr_pid"@ {
        "PID"@
    } else if key == "lock_hdr_name"@ {
        "Process Name"@
    } else if key == "lock_hdr_fd"@ {
        "Descriptor (FD)"@
    } else if key == "lock_hdr_mode"@ {
        "Access Mode"@
    } else if key == "lock_hdr_path"@ {
        "File Path"@
    } else if key == "lock_hdr_action"@ {
        "Action"@
    } else if key == "mode_read"@ {
        "Read"@
    } else if key == "mode_write"@ {
        "Write"@
    } else if key == "mode_readwrite"@ {
        "ReadWrite"@
    } else if key == "btn_terminate"@ {
        "Terminate"@
    } else {
        key
    }
}

/// The Turkish text for a translation key; an unknown key is its own text.
pub open spec fn tr_text(key: Seq<char>) -> Seq<char> {
    if key == "tab_processes"@ {
        "☰  Süreçler"@
    } else if key == "tab_performance"@ {
        "📈  Performans"@
    } else if key == "tab_services"@ {
        "⚙  Servisler"@
    } else if key == "tab_startup"@ {
        "⚡  Başlangıç"@
    } else if key == "tab_connections"@ {
        "🌐  Ağ Bağlantıları"@
    } else if key == "tab_file_locks"@ {
        "🔒  Dosya Kilitleri"@
    } else if key == "tab_about"@ {
        "ℹ  Sistem Bilgisi"@
    } else if key == "display_backend"@ {
        "Ekran Sunucusu:"@
    } else if key == "btn_refresh"@ {
        "🔄 Yenile"@
    } else if key == "btn_refresh_list"@ {
        "🔄 Listeyi Yenile"@
    } else if key == "label_search"@ {
        "🔍 Ara:"@
    } else if key == "proc_tree_view"@ {
        "🌳 Ağaç Görünümü (Tree)"@
    } else if key == "proc_hdr_pid"@ {
        "PID"@
    } else if key == "proc_hdr_name"@ {
        "İsim"@
    } else if key == "proc_hdr_cpu"@ {
        "CPU%"@
    } else if key == "proc_hdr_ram"@ {
        "RAM%"@
    } else if key == "proc_hdr_read"@ {
        "Disk Oku"@
    } else if key == "proc_hdr_write"@ {
        "Disk Yaz"@
    } else if key == "proc_hdr_user"@ {
        "Kullanıcı"@
    } else if key == "proc_hdr_path"@ {
        "Yol"@
    } else if key == "proc_search_hint"@ {
        "Süreç adı, PID veya kullanıcıya göre filtrele..."@
    } else if key == "menu_terminate"@ {
        "⏹  Görevi Sonlandır"@
    } else if key == "menu_force_terminate"@ {
        "🛡  Yönetici Olarak Kapat (Admin)"@
    } else if key == "menu_open_location"@ {
        "📂  Dosya Konumunu Aç"@
    } else if key == "menu_search_web"@ {
        "🔍  Web'de Ara"@
    } else if key == "menu_properties"@ {
        "📝  Detaylar"@
    } else if key == "modal_proc_details"@ {
        "Süreç Özellikleri"@
    } else if key == "modal_ppid"@ {
        "Üst PID (PPID):"@
    } else if key == "modal_status"@ {
        "Durum:"@
    } else if key == "modal_virt"@ {
        "Sanal Bellek:"@
    } else if key == "modal_cmdline"@ {
        "Komut Satırı:"@
    } else if key == "modal_owner"@ {
        "Sahip Kullanıcı:"@
    } else if key == "btn_copy"@ {
        "📋 Panoya Kopyala"@
    } else if key == "btn_close"@ {
        "Kapat"@
    } else if key == "svc_search_hint"@ {
        "Servis adı veya açıklama ara..."@
    } else if key == "svc_hdr_name"@ {
        "Servis Adı"@
    } else if key == "svc_hdr_load"@ {
        "Yükleme"@
    } else if key == "svc_hdr_active"@ {
        "Etkinlik"@
    } else if key == "svc_hdr_sub"@ {
        "Alt Durum"@
    } else if key == "svc_hdr_desc"@ {
        "Açıklama"@
    } else if key == "svc_no_matches"@ {
        "Eşleşen servis bulunamadı"@
    } else if key == "menu_svc_start"@ {
        "▶  Servisi Başlat"@
    } else if key == "menu_svc_stop"@ {
        "⏹  Servisi Durdur"@
    } else if key == "menu_svc_restart"@ {
        "🔄  Yeniden Başlat"@
    } else if key == "menu_svc_enable"@ {
        "⚡  Başlangıçta Etkinleştir"@
    } else if key == "menu_svc_disable"@ {
        "❌  Açılışta Devre Dışı Bırak"@
    } else if key == "start_title"@ {
        "Başlangıç Uygulamaları"@
    } else if key == "start_subtitle"@ {
        "Sistem genelinde ve kullanıcıya özel otomatik başlatılan uygulamaları yönetin."@
    } else if key == "start_no_entries"@ {
        "Başlangıç uygulaması bulunamadı"@
    } else if key == "start_hdr_status"@ {
        "Durum"@
    } else if key == "start_hdr_app"@ {
        "Uygulama Adı"@
    } else if key == "start_hdr_cmd"@ {
        "Başlatma Komutu"@
    } else if key == "start_hdr_loc"@ {
        "Konum"@
    } else if key == "start_hdr_details"@ {
        "Detaylar"@
    } else if key == "status_enabled"@ {
        "Etkin"@
    } else if key == "status_disabled"@ {
        "Devre Dışı"@
    } else if key == "loc_user"@ {
        "Kullanıcı Özel"@
    } else if key == "loc_system"@ {
        "Sistem Geneli"@
    } else if key == "conn_title"@ {
        "Aktif Ağ Bağlantıları Haritası"@
    } else if key == "conn_subtitle"@ {
        "TCP ve UDP soketlerinin anlık süreç sahipleriyle haritalandırılması."@
    } else if key == "conn_hdr_proto"@ {
        "Protokol"@
    } else if key == "conn_hdr_local"@ {
        "Yerel Adres"@
    } else if key == "conn_hdr_remote"@ {
        "Uzak Adres"@
    } else if key == "conn_hdr_state"@ {
        "Durum"@
    } else if key == "conn_hdr_owner"@ {
        "Süreç Sahibi"@
    } else if key == "lock_title"@ {
        "Dosya Kilidi ve Açık Dosya İzleyici"@
    } else if key == "lock_subtitle"@ {
        "Belirli yollarda kilit veya açık tanıtıcı (handle) tutan süreçleri anında bulun."@
    } else if key == "lock_search_hint"@ {
        "Mutlak dosya veya klasör yolu girin..."@
    } else if key == "lock_btn_scan"@ {
        "Yolu Tara"@
    } else if key == "lock_no_matches"@ {
        "Bu yol üzerinde açık kilit tutan süreç bulunamadı"@
    } else if key == "lock_hdr_pid"@ {
        "PID"@
    } else if key == "lock_hdr_name"@ {
        "Süreç İsim"@
    } else if key == "lock_hdr_fd"@ {
        "Tanıtıcı (FD)"@
    } else if key == "lock_hdr_mode"@ {
        "Erişim Modu"@
    } else if key == "lock_hdr_path"@ {
        "Dosya Yolu"@
    } else if key == "lock_hdr_action"@ {
        "İşlem"@
    } else if key == "mode_read"@ {
        "Oku"@
    } else if key == "mode_write"@ {
        "Yaz"@
    } else if key == "mode_readwrite"@ {
        "OkuYaz"@
    } else if key == "btn_terminate"@ {
        "Görevi Sonlandır"@
    } else {
        key
    }
}

/// Text of `key` in English; an unknown key is returned unchanged.
pub fn translate_en(key: &'static str) -> (r: &'static str)
    ensures
        r@ == en_text(key@),
{
    let k = chars_of(key);
    if is_key(&k, "tab_processes") {
        "☰  Processes"
    } else if is_key(&k, "tab_performance") {
        "📈  Performance"
    } else if is_key(&k, "tab_services") {
        "⚙  Services"
    } else if is_key(&k, "tab_startup") {
        "⚡  Startup Apps"
    } else if is_key(&k, "tab_connections") {
        "🌐  Connections"
    } else if is_key(&k, "tab_file_locks") {
        "🔒  File Locks"
    } else if is_key(&k, "tab_about") {
        "ℹ  System Info"
    } else if is_key(&k, "display_backend") {
        "Display Backend:"
    } else if is_key(&k, "btn_refresh") {
        "🔄 Refresh"
    } else if is_key(&k, "btn_refresh_list") {
        "🔄 Refresh List"
    } else if is_key(&k, "label_search") {
        "🔍 Search:"
    } else if is_key(&k, "proc_tree_view") {
        "🌳 Tree View"
    } else if is_key(&k, "proc_hdr_pid") {
        "PID"
    } else if is_key(&k, "proc_hdr_name") {
        "Name"
    } else if is_key(&k, "proc_hdr_cpu") {
        "CPU%"
    } else if is_key(&k, "proc_hdr_ram") {
        "RAM%"
    } else if is_key(&k, "proc_hdr_read") {
        "Disk Read"
    } else if is_key(&k, "proc_hdr_write") {
        "Disk Write"
    } else if is_key(&k, "proc_hdr_user") {
        "User"
    } else if is_key(&k, "proc_hdr_path") {
        "Path"
    } else if is_key(&k, "proc_search_hint") {
        "Filter processes by name, PID, or user..."
    } else if is_key(&k, "menu_terminate") {
        "⏹  Terminate Task"
    } else if is_key(&k, "menu_force_terminate") {
        "🛡  Force Terminate (Admin)"
    } else if is_key(&k, "menu_open_location") {
        "📂  Open File Location"
    } else if is_key(&k, "menu_search_web") {
        "🔍  Search Web"
    } else if is_key(&k, "menu_properties") {
        "📝  Properties"
    } else if is_key(&k, "modal_proc_details") {
        "Process Details"
    } else if is_key(&k, "modal_ppid") {
        "Parent PID:"
    } else if is_key(&k, "modal_status") {
        "Status:"
    } else if is_key(&k, "modal_virt") {
        "Virtual Memory:"
    } else if is_key(&k, "modal_cmdline") {
        "Command Line:"
    } else if is_key(&k, "modal_owner") {
        "Owner User:"
    } else if is_key(&k, "btn_copy") {
        "📋 Copy to Clipboard"
    } else if is_key(&k, "btn_close") {
        "Close"
    } else if is_key(&k, "svc_search_hint") {
        "Search service name or description..."
    } else if is_key(&k, "svc_hdr_name") {
        "Service Name"
    } else if is_key(&k, "svc_hdr_load") {
        "Load State"
    } else if is_key(&k, "svc_hdr_active") {
        "Active State"
    } else if is_key(&k, "svc_hdr_sub") {
        "Sub State"
    } else if is_key(&k, "svc_hdr_desc") {
        "Description"
    } else if is_key(&k, "svc_no_matches") {
        "No matching services found"
    } else if is_key(&k, "menu_svc_start") {
        "▶  Start Service"
    } else if is_key(&k, "menu_svc_stop") {
        "⏹  Stop Service"
    } else if is_key(&k, "menu_svc_restart") {
        "🔄  Restart Service"
    } else if is_key(&k, "menu_svc_enable") {
        "⚡  Enable on Startup"
    } else if is_key(&k, "menu_svc_disable") {
        "❌  Disable on Startup"
    } else if is_key(&k, "start_title") {
        "Startup Applications"
    } else if is_key(&k, "start_subtitle") {
        "Manage system-wide and user-specific autostart application entries."
    } else if is_key(&k, "start_no_entries") {
        "No startup entries found"
    } else if is_key(&k, "start_hdr_status") {
        "Status"
    } else if is_key(&k, "start_hdr_app") {
        "Application Name"
    } else if is_key(&k, "start_hdr_cmd") {
        "Launch Command"
    } else if is_key(&k, "start_hdr_loc") {
        "Location"
    } else if is_key(&k, "start_hdr_details") {
        "Details"
    } else if is_key(&k, "status_enabled") {
        "Enabled"
    } else if is_key(&k, "status_disabled") {
        "Disabled"
    } else if is_key(&k, "loc_user") {
        "User Local"
    } else if is_key(&k, "loc_system") {
        "System Wide"
    } else if is_key(&k, "conn_title") {
        "Active Network Connections Map"
    } else if is_key(&k, "conn_subtitle") {
        "Real-time TCP & UDP socket mapping to local process owners."
    } else if is_key(&k, "conn_hdr_proto") {
        "Protocol"
    } else if is_key(&k, "conn_hdr_local") {
        "Local Endpoint"
    } else if is_key(&k, "conn_hdr_remote") {
        "Remote Endpoint"
    } else if is_key(&k, "conn_hdr_state") {
        "State"
    } else if is_key(&k, "conn_hdr_owner") {
        "Process Owner"
    } else if is_key(&k, "lock_title") {
        "File Open & Lock Tracker"
    } else if is_key(&k, "lock_subtitle") {
        "Search open file descriptors to find which active processes are holding handles on specified paths."
    } else if is_key(&k, "lock_search_hint") {
        "Enter absolute file/directory path..."
    } else if is_key(&k, "lock_btn_scan") {
        "Scan Path Handle"
    } else if is_key(&k, "lock_no_matches") {
        "No processes holding handles on this path"
    } else if is_key(&k, "lock_hdr_pid") {
        "PID"
    } else if is_key(&k, "lock_hdr_name") {
        "Process Name"
    } else if is_key(&k, "lock_hdr_fd") {
        "Descriptor (FD)"
    } else if is_key(&k, "lock_hdr_mode") {
        "Access Mode"
    } else if is_key(&k, "lock_hdr_path") {
        "File Path"
    } else if is_key(&k, "lock_hdr_action") {
        "Action"
    } else if is_key(&k, "mode_read") {
        "Read"
    } else if is_key(&k, "mode_write") {
        "Write"
    } else if is_key(&k, "mode_readwrite") {
        "ReadWrite"
    } else if is_key(&k, "btn_terminate") {
        "Terminate"
    } else {
        key
    }
}

/// Text of `key` in Turkish; an unknown key is returned unchanged.
pub fn translate_tr(key: &'static str) -> (r: &'static str)
    ensures
        r@ == tr_text(key@),
{
    let k = chars_of(key);
    if is_key(&k, "tab_processes") {
        "☰  Süreçler"
    } else if is_key(&k, "tab_performance") {
        "📈  Performans"
    } else if is_key(&k, "tab_services") {
        "⚙  Servisler"
    } else if is_key(&k, "tab_startup") {
        "⚡  Başlangıç"
    } else if is_key(&k, "tab_connections") {
        "🌐  Ağ Bağlantıları"
    } else if is_key(&k, "tab_file_locks") {
        "🔒  Dosya Kilitleri"
    } else if is_key(&k, "tab_about") {
        "ℹ  Sistem Bilgisi"
    } else if is_key(&k, "display_backend") {
        "Ekran Sunucusu:"
    } else if is_key(&k, "btn_refresh") {
        "🔄 Yenile"
    } else if is_key(&k, "btn_refresh_list") {
        "🔄 Listeyi Yenile"
    } else if is_key(&k, "label_search") {
        "🔍 Ara:"
    } else if is_key(&k, "proc_tree_view") {
        "🌳 Ağaç Görünümü (Tree)"
    } else if is_key(&k, "proc_hdr_pid") {
        "PID"
    } else if is_key(&k, "proc_hdr_name") {
        "İsim"
    } else if is_key(&k, "proc_hdr_cpu") {
        "CPU%"
    } else if is_key(&k, "proc_hdr_ram") {
        "RAM%"
    } else if is_key(&k, "proc_hdr_read") {
        "Disk Oku"
    } else if is_key(&k, "proc_hdr_write") {
        "Disk Yaz"
    } else if is_key(&k, "proc_hdr_user") {
        "Kullanıcı"
    } else if is_key(&k, "proc_hdr_path") {
        "Yol"
    } else if is_key(&k, "proc_search_hint") {
        "Süreç adı, PID veya kullanıcıya göre filtrele..."
    } else if is_key(&k, "menu_terminate") {
        "⏹  Görevi Sonlandır"
    } else if is_key(&k, "menu_force_terminate") {
        "🛡  Yönetici Olarak Kapat (Admin)"
    } else if is_key(&k, "menu_open_location") {
        "📂  Dosya Konumunu Aç"
    } else if is_key(&k, "menu_search_web") {
        "🔍  Web'de Ara"
    } else if is_key(&k, "menu_properties") {
        "📝  Detaylar"
    } else if is_key(&k, "modal_proc_details") {
        "Süreç Özellikleri"
    } else if is_key(&k, "modal_ppid") {
        "Üst PID (PPID):"
    } else if is_key(&k, "modal_status") {
        "Durum:"
    } else if is_key(&k, "modal_virt") {
        "Sanal Bellek:"
    } else if is_key(&k, "modal_cmdline") {
        "Komut Satırı:"
    } else if is_key(&k, "modal_owner") {
        "Sahip Kullanıcı:"
    } else if is_key(&k, "btn_copy") {
        "📋 Panoya Kopyala"
    } else if is_key(&k, "btn_close") {
        "Kapat"
    } else if is_key(&k, "svc_search_hint") {
        "Servis adı veya açıklama ara..."
    } else if is_key(&k, "svc_hdr_name") {
        "Servis Adı"
    } else if is_key(&k, "svc_hdr_load") {
        "Yükleme"
    } else if is_key(&k, "svc_hdr_active") {
        "Etkinlik"
    } else if is_key(&k, "svc_hdr_sub") {
        "Alt Durum"
    } else if is_key(&k, "svc_hdr_desc") {
        "Açıklama"
    } else if is_key(&k, "svc_no_matches") {
        "Eşleşen servis bulunamadı"
    } else if is_key(&k, "menu_svc_start") {
        "▶  Servisi Başlat"
    } else if is_key(&k, "menu_svc_stop") {
        "⏹  Servisi Durdur"
    } else if is_key(&k, "menu_svc_restart") {
        "🔄  Yeniden Başlat"
    } else if is_key(&k, "menu_svc_enable") {
        "⚡  Başlangıçta Etkinleştir"
    } else if is_key(&k, "menu_svc_disable") {
        "❌  Açılışta Devre Dışı Bırak"
    } else if is_key(&k, "start_title") {
        "Başlangıç Uygulamaları"
    } else if is_key(&k, "start_subtitle") {
        "Sistem genelinde ve kullanıcıya özel otomatik başlatılan uygulamaları yönetin."
    } else if is_key(&k, "start_no_entries") {
        "Başlangıç uygulaması bulunamadı"
    } else if is_key(&k, "start_hdr_status") {
        "Durum"
    } else if is_key(&k, "start_hdr_app") {
        "Uygulama Adı"
    } else if is_key(&k, "start_hdr_cmd") {
        "Başlatma Komutu"
    } else if is_key(&k, "start_hdr_loc") {
        "Konum"
    } else if is_key(&k, "start_hdr_details") {
        "Detaylar"
    } else if is_key(&k, "status_enabled") {
        "Etkin"
    } else if is_key(&k, "status_disabled") {
        "Devre Dışı"
    } else if is_key(&k, "loc_user") {
        "Kullanıcı Özel"
    } else if is_key(&k, "loc_system") {
        "Sistem Geneli"
    } else if is_key(&k, "conn_title") {
        "Aktif Ağ Bağlantıları Haritası"
    } else if is_key(&k, "conn_subtitle") {
        "TCP ve UDP soketlerinin anlık süreç sahipleriyle haritalandırılması."
    } else if is_key(&k, "conn_hdr_proto") {
        "Protokol"
    } else if is_key(&k, "conn_hdr_local") {
        "Yerel Adres"
    } else if is_key(&k, "conn_hdr_remote") {
        "Uzak Adres"
    } else if is_key(&k, "conn_hdr_state") {
        "Durum"
    } else if is_key(&k, "conn_hdr_owner") {
        "Süreç Sahibi"
    } else if is_key(&k, "lock_title") {
        "Dosya Kilidi ve Açık Dosya İzleyici"
    } else if is_key(&k, "lock_subtitle") {
        "Belirli yollarda kilit veya açık tanıtıcı (handle) tutan süreçleri anında bulun."
    } else if is_key(&k, "lock_search_hint") {
        "Mutlak dosya veya klasör yolu girin..."
    } else if is_key(&k, "lock_btn_scan") {
        "Yolu Tara"
    } else if is_key(&k, "lock_no_matches") {
        "Bu yol üzerinde açık kilit tutan süreç bulunamadı"
    } else if is_key(&k, "lock_hdr_pid") {
        "PID"
    } else if is_key(&k, "lock_hdr_name") {
        "Süreç İsim"
    } else if is_key(&k, "lock_hdr_fd") {
        "Tanıtıcı (FD)"
    } else if is_key(&k, "lock_hdr_mode") {
        "Erişim Modu"
    } else if is_key(&k, "lock_hdr_path") {
        "Dosya Yolu"
    } else if is_key(&k, "lock_hdr_action") {
        "İşlem"
    } else if is_key(&k, "mode_read") {
        "Oku"
    } else if is_key(&k, "mode_write") {
        "Yaz"
    } else if is_key(&k, "mode_readwrite") {
        "OkuYaz"
    } else if is_key(&k, "btn_terminate") {
        "Görevi Sonlandır"
    } else {
        key
    }
}

/// Both languages translate the same keys: a key has an English text of its
/// own exactly when it has a Turkish one, so no key falls back to itself in
/// one language only.
#[verifier::rlimit(50)]
pub proof fn lemma_same_keys(key: Seq<char>)
    ensures
        (en_text(key) == key) <==> (tr_text(key) == key),
{
    if key == "tab_processes"@ {
        reveal_strlit("tab_processes");
        reveal_strlit("☰  Processes");
        reveal_strlit("☰  Süreçler");
        assert(en_text(key)[0] != key[0] && tr_text(key)[0] != key[0]);
        assert(en_text(key) != key && tr_text(key) != key);
    } else if key == "tab_performance"@ {
        reveal_strlit("tab_performance");
        reveal_strlit("📈  Performance");
        reveal_strlit("📈  Performans");
        assert(en_text(key)[0] != key[0] && tr_text(key)[0] != key[0]);
        assert(en_text(key) != key && tr_text(key) != key);
    } else if key == "tab_services"@ {
        reveal_strlit("tab_services");
        reveal_strlit("⚙  Services");
        reveal_strlit("⚙  Servisler");
        assert(en_text(key)[0] != key[0] && tr_text(key)[0] != key[0]);
        assert(en_text(key) != key && tr_text(key) != key);
    } else if key == "tab_startup"@ {
        reveal_strlit("tab_startup");
        reveal_strlit("⚡  Startup Apps");
        reveal_strlit("⚡  Başlangıç");
        assert(en_text(key)[0] != key[0] && tr_text(key)[0] != key[0]);
        assert(en_text(key) != key && tr_text(key) != key);
    } else if key == "tab_connections"@ {
        reveal_strlit("tab_connections");
        reveal_strlit("🌐  Connections");
        reveal_strlit("🌐  Ağ Bağlantıları");
        assert(en_text(key)[0] != key[0] && tr_text(key)[0] != key[0]);
        assert(en_text(key) != key && tr_text(key) != key);
    } else if key == "tab_file_locks"@ {
        reveal_strlit("tab_file_locks");
        reveal_strlit("🔒  File Locks");
        reveal_strlit("🔒  Dosya Kilitleri");
        assert(en_text(key)[0] != key[0] && tr_text(key)[0] != key[0]);
        assert(en_text(key) != key && tr_text(key) != key);
    } else if key == "tab_about"@ {
        reveal_strlit("tab_about");
        reveal_strlit("ℹ  System Info");
        reveal_strlit("ℹ  Sistem Bilgisi");
        assert(en_text(key)[0] != key[0] && tr_text(key)[0] != key[0]);
        assert(en_text(key) != key && tr_text(key) != key);
    } else if key == "display_backend"@ {
        reveal_strlit("display_backend");
        reveal_strlit("Display Backend:");
        reveal_strlit("Ekran Sunucusu:");
        assert(en_text(key)[0] != key[0] && tr_text(key)[0] != key[0]);
        assert(en_text(key) != key && tr_text(key) != key);
    } else if key == "btn_refresh"@ {
        reveal_strlit("btn_refresh");
        reveal_strlit("🔄 Refresh");
        reveal_strlit("🔄 Yenile");
        assert(en_text(key)[0] != key[0] && tr_text(key)[0] != key[0]);
        assert(en_text(key) != key && tr_text(key) != key);
    } else if key == "btn_refresh_list"@ {
        reveal_strlit("btn_refresh_list");
        reveal_strlit("🔄 Refresh List");
        reveal_strlit("🔄 Listeyi Yenile");
        assert(en_text(key)[0] != key[0] && tr_text(key)[0] != key[0]);
        assert(en_text(key) != key && tr_text(key) != key);
    } else if key == "label_search"@ {
        reveal_strlit("label_search");
        reveal_strlit("🔍 Search:");
        reveal_strlit("🔍 Ara:");
        assert(en_text(key)[0] != key[0] && tr_text(key)[0] != key[0]);
        assert(en_text(key) != key && tr_text(key) != key);
    } else if key == "proc_tree_view"@ {
        reveal_strlit("proc_tree_view");
        reveal_strlit("🌳 Tree View");
        reveal_strlit("🌳 Ağaç Görünümü (Tree)");
        assert(en_text(key)[0] != key[0] && tr_text(key)[0] != key[0]);
        assert(en_text(key) != key && tr_text(key) != key);
    } else if key == "proc_hdr_pid"@ {
        reveal_strlit("proc_hdr_pid");
        reveal_strlit("PID");
        reveal_strlit("PID");
        assert(en_text(key)[0] != key[0] && tr_text(key)[0] != key[0]);
        assert(en_text(key) != key && tr_text(key) != key);
    } else if key == "proc_hdr_name"@ {
        reveal_strlit("proc_hdr_name");
        reveal_strlit("Name");
        reveal_strlit("İsim");
        assert(en_text(key)[0] != key[0] && tr_text(key)[0] != key[0]);
        assert(en_text(key) != key && tr_text(key) != key);
    } else if key == "proc_hdr_cpu"@ {
        reveal_strlit("proc_hdr_cpu");
        reveal_strlit("CPU%");
        reveal_strlit("CPU%");
        assert(en_text(key)[0] != key[0] && tr_text(key)[0] != key[0]);
        assert(en_text(key) != key && tr_text(key) != key);
    } else if key == "proc_hdr_ram"@ {
        reveal_strlit("proc_hdr_ram");
        reveal_strlit("RAM%");
        reveal_strlit("RAM%");
        assert(en_text(key)[0] != key[0] && tr_text(key)[0] != key[0]);
        assert(en_text(key) != key && tr_text(key) != key);
    } else if key == "proc_hdr_read"@ {
        reveal_strlit("proc_hdr_read");
        reveal_strlit("Disk Read");
        reveal_strlit("Disk Oku");
        assert(en_text(key)[0] != key[0] && tr_text(key)[0] != key[0]);
        assert(en_text(key) != key && tr_text(key) != key);
    } else if key == "proc_hdr_write"@ {
        reveal_strlit("proc_hdr_write");
        reveal_strlit("Disk Write");
        reveal_strlit("Disk Yaz");
        assert(en_text(key)[0] != key[0] && tr_text(key)[0] != key[0]);
        assert(en_text(key) != key && tr_text(key) != key);
    } else if key == "proc_hdr_user"@ {
        reveal_strlit("proc_hdr_user");
        reveal_strlit("User");
        reveal_strlit("Kullanıcı");
        assert(en_text(key)[0] != key[0] && tr_text(key)[0] != key[0]);
        assert(en_text(key) != key && tr_text(key) != key);
    } else if key == "proc_hdr_path"@ {
        reveal_strlit("proc_hdr_path");
        reveal_strlit("Path");
        reveal_strlit("Yol");
        assert(en_text(key)[0] != key[0] && tr_text(key)[0] != key[0]);
        assert(en_text(key) != key && tr_text(key) != key);
    } else if key == "proc_search_hint"@ {
        reveal_strlit("proc_search_hint");
        reveal_strlit("Filter processes by name, PID, or user...");
        reveal_strlit("Süreç adı, PID veya kullanıcıya göre filtrele...");
        assert(en_text(key)[0] != key[0] && tr_text(key)[0] != key[0]);
        assert(en_text(key) != key && tr_text(key) != key);
    } else if key == "menu_terminate"@ {
        reveal_strlit("menu_terminate");
        reveal_strlit("⏹  Terminate Task");
        reveal_strlit("⏹  Görevi Sonlandır");
        assert(en_text(key)[0] != key[0] && tr_text(key)[0] != key[0]);
        assert(en_text(key) != key && tr_text(key) != key);
    } else if key == "menu_force_terminate"@ {
        reveal_strlit("menu_force_terminate");
        reveal_strlit("🛡  Force Terminate (Admin)");
        reveal_strlit("🛡  Yönetici Olarak Kapat (Admin)");
        assert(en_text(key)[0] != key[0] && tr_text(key)[0] != key[0]);
        assert(en_text(key) != key && tr_text(key) != key);
    } else if key == "menu_open_location"@ {
        reveal_strlit("menu_open_location");
        reveal_strlit("📂  Open File Location");
        reveal_strlit("📂  Dosya Konumunu Aç");
        assert(en_text(key)[0] != key[0] && tr_text(key)[0] != key[0]);
        assert(en_text(key) != key && tr_text(key) != key);
    } else if key == "menu_search_web"@ {
        reveal_strlit("menu_search_web");
        reveal_strlit("🔍  Search Web");
        reveal_strlit("🔍  Web'de Ara");
        assert(en_text(key)[0] != key[0] && tr_text(key)[0] != key[0]);
        assert(en_text(key) != key && tr_text(key) != key);
    } else if key == "menu_properties"@ {
        reveal_strlit("menu_properties");
        reveal_strlit("📝  Properties");
        reveal_strlit("📝  Detaylar");
        assert(en_text(key)[0] != key[0] && tr_text(key)[0] != key[0]);
        assert(en_text(key) != key && tr_text(key) != key);
    } else if key == "modal_proc_details"@ {
        reveal_strlit("modal_proc_details");
        reveal_strlit("Process Details");
        reveal_strlit("Süreç Özellikleri");
        assert(en_text(key)[0] != key[0] && tr_text(key)[0] != key[0]);
        assert(en_text(key) != key && tr_text(key) != key);
    } else if key == "modal_ppid"@ {
        reveal_strlit("modal_ppid");
        reveal_strlit("Parent PID:");
        reveal_strlit("Üst PID (PPID):");
        assert(en_text(key)[0] != key[0] && tr_text(key)[0] != key[0]);
        assert(en_text(key) != key && tr_text(key) != key);
    } else if key == "modal_status"@ {
        reveal_strlit("modal_status");
        reveal_strlit("Status:");
        reveal_strlit("Durum:");
        assert(en_text(key)[0] != key[0] && tr_text(key)[0] != key[0]);
        assert(en_text(key) != key && tr_text(key) != key);
    } else if key == "modal_virt"@ {
        reveal_strlit("modal_virt");
        reveal_strlit("Virtual Memory:");
        reveal_strlit("Sanal Bellek:");
        assert(en_text(key)[0] != key[0] && tr_text(key)[0] != key[0]);
        assert(en_text(key) != key && tr_text(key) != key);
    } else if key == "modal_cmdline"@ {
        reveal_strlit("modal_cmdline");
        reveal_strlit("Command Line:");
        reveal_strlit("Komut Satırı:");
        assert(en_text(key)[0] != key[0] && tr_text(key)[0] != key[0]);
        assert(en_text(key) != key && tr_text(key) != key);
    } else if key == "modal_owner"@ {
        reveal_strlit("modal_owner");
        reveal_strlit("Owner User:");
        reveal_strlit("Sahip Kullanıcı:");
        assert(en_text(key)[0] != key[0] && tr_text(key)[0] != key[0]);
        assert(en_text(key) != key && tr_text(key) != key);
    } else if key == "btn_copy"@ {
        reveal_strlit("btn_copy");
        reveal_strlit("📋 Copy to Clipboard");
        reveal_strlit("📋 Panoya Kopyala");
        assert(en_text(key)[0] != key[0] && tr_text(key)[0] != key[0]);
        assert(en_text(key) != key && tr_text(key) != key);
    } else if key == "btn_close"@ {
        reveal_strlit("btn_close");
        reveal_strlit("Close");
        reveal_strlit("Kapat");
        assert(en_text(key)[0] != key[0] && tr_text(key)[0] != key[0]);
        assert(en_text(key) != key && tr_text(key) != key);
    } else if key == "svc_search_hint"@ {
        reveal_strlit("svc_search_hint");
        reveal_strlit("Search service name or description...");
        reveal_strlit("Servis adı veya açıklama ara...");
        assert(en_text(key)[0] != key[0] && tr_text(key)[0] != key[0]);
        assert(en_text(key) != key && tr_text(key) != key);
    } else if key == "svc_hdr_name"@ {
        reveal_strlit("svc_hdr_name");
        reveal_strlit("Service Name");
        reveal_strlit("Servis Adı");
        assert(en_text(key)[0] != key[0] && tr_text(key)[0] != key[0]);
        assert(en_text(key) != key && tr_text(key) != key);
    } else if key == "svc_hdr_load"@ {
        reveal_strlit("svc_hdr_load");
        reveal_strlit("Load State");
        reveal_strlit("Yükleme");
        assert(en_text(key)[0] != key[0] && tr_text(key)[0] != key[0]);
        assert(en_text(key) != key && tr_text(key) != key);
    } else if key == "svc_hdr_active"@ {
        reveal_strlit("svc_hdr_active");
        reveal_strlit("Active State");
        reveal_strlit("Etkinlik");
        assert(en_text(key)[0] != key[0] && tr_text(key)[0] != key[0]);
        assert(en_text(key) != key && tr_text(key) != key);
    } else if key == "svc_hdr_sub"@ {
        reveal_strlit("svc_hdr_sub");
        reveal_strlit("Sub State");
        reveal_strlit("Alt Durum");
        assert(en_text(key)[0] != key[0] && tr_text(key)[0] != key[0]);
        assert(en_text(key) != key && tr_text(key) != key);
    } else if key == "svc_hdr_desc"@ {
        reveal_strlit("svc_hdr_desc");
        reveal_strlit("Description");
        reveal_strlit("Açıklama");
        assert(en_text(key)[0] != key[0] && tr_text(key)[0] != key[0]);
        assert(en_text(key) != key && tr_text(key) != key);
    } else if key == "svc_no_matches"@ {
        reveal_strlit("svc_no_matches");
        reveal_strlit("No matching services found");
        reveal_strlit("Eşleşen servis bulunamadı");
        assert(en_text(key)[0] != key[0] && tr_text(key)[0] != key[0]);
        assert(en_text(key) != key && tr_text(key) != key);
    } else if key == "menu_svc_start"@ {
        reveal_strlit("menu_svc_start");
        reveal_strlit("▶  Start Service");
        reveal_strlit("▶  Servisi Başlat");
        assert(en_text(key)[0] != key[0] && tr_text(key)[0] != key[0]);
        assert(en_text(key) != key && tr_text(key) != key);
    } else if key == "menu_svc_stop"@ {
        reveal_strlit("menu_svc_stop");
        reveal_strlit("⏹  Stop Service");
        reveal_strlit("⏹  Servisi Durdur");
        assert(en_text(key)[0] != key[0] && tr_text(key)[0] != key[0]);
        assert(en_text(key) != key && tr_text(key) != key);
    } else if key == "menu_svc_restart"@ {
        reveal_strlit("menu_svc_restart");
        reveal_strlit("🔄  Restart Service");
        reveal_strlit("🔄  Yeniden Başlat");
        assert(en_text(key)[0] != key[0] && tr_text(key)[0] != key[0]);
        assert(en_text(key) != key && tr_text(key) != key);
    } else if key == "menu_svc_enable"@ {
        reveal_strlit("menu_svc_enable");
        reveal_strlit("⚡  Enable on Startup");
        reveal_strlit("⚡  Başlangıçta Etkinleştir");
        assert(en_text(key)[0] != key[0] && tr_text(key)[0] != key[0]);
        assert(en_text(key) != key && tr_text(key) != key);
    } else if key == "menu_svc_disable"@ {
        reveal_strlit("menu_svc_disable");
        reveal_strlit("❌  Disable on Startup");
        reveal_strlit("❌  Açılışta Devre Dışı Bırak");
        assert(en_text(key)[0] != key[0] && tr_text(key)[0] != key[0]);
        assert(en_text(key) != key && tr_text(key) != key);
    } else if key == "start_title"@ {
        reveal_strlit("start_title");
        reveal_strlit("Startup Applications");
        reveal_strlit("Başlangıç Uygulamaları");
        assert(en_text(key)[0] != key[0] && tr_text(key)[0] != key[0]);
        assert(en_text(key) != key && tr_text(key) != key);
    } else if key == "start_subtitle"@ {
        reveal_strlit("start_subtitle");
        reveal_strlit("Manage system-wide and user-specific autostart application entries.");
        reveal_strlit("Sistem genelinde ve kullanıcıya özel otomatik başlatılan uygulamaları yönetin.");
        assert(en_text(key)[0] != key[0] && tr_text(key)[0] != key[0]);
        assert(en_text(key) != key && tr_text(key) != key);
    } else if key == "start_no_entries"@ {
        reveal_strlit("start_no_entries");
        reveal_strlit("No startup entries found");
        reveal_strlit("Başlangıç uygulaması bulunamadı");
        assert(en_text(key)[0] != key[0] && tr_text(key)[0] != key[0]);
        assert(en_text(key) != key && tr_text(key) != key);
    } else if key == "start_hdr_status"@ {
        reveal_strlit("start_hdr_status");
        reveal_strlit("Status");
        reveal_strlit("Durum");
        assert(en_text(key)[0] != key[0] && tr_text(key)[0] != key[0]);
        assert(en_text(key) != key && tr_text(key) != key);
    } else if key == "start_hdr_app"@ {
        reveal_strlit("start_hdr_app");
        reveal_strlit("Application Name");
        reveal_strlit("Uygulama Adı");
        assert(en_text(key)[0] != key[0] && tr_text(key)[0] != key[0]);
        assert(en_text(key) != key && tr_text(key) != key);
    } else if key == "start_hdr_cmd"@ {
        reveal_strlit("start_hdr_cmd");
        reveal_strlit("Launch Command");
        reveal_strlit("Başlatma Komutu");
        assert(en_text(key)[0] != key[0] && tr_text(key)[0] != key[0]);
        assert(en_text(key) != key && tr_text(key) != key);
    } else if key == "start_hdr_loc"@ {
        reveal_strlit("start_hdr_loc");
        reveal_strlit("Location");
        reveal_strlit("Konum");
        assert(en_text(key)[0] != key[0] && tr_text(key)[0] != key[0]);
        assert(en_text(key) != key && tr_text(key) != key);
    } else if key == "start_hdr_details"@ {
        reveal_strlit("start_hdr_details");
        reveal_strlit("Details");
        reveal_strlit("Detaylar");
        assert(en_text(key)[0] != key[0] && tr_text(key)[0] != key[0]);
        assert(en_text(key) != key && tr_text(key) != key);
    } else if key == "status_enabled"@ {
        reveal_strlit("status_enabled");
        reveal_strlit("Enabled");
        reveal_strlit("Etkin");
        assert(en_text(key)[0] != key[0] && tr_text(key)[0] != key[0]);
        assert(en_text(key) != key && tr_text(key) != key);
    } else if key == "status_disabled"@ {
        reveal_strlit("status_disabled");
        reveal_strlit("Disabled");
        reveal_strlit("Devre Dışı");
        assert(en_text(key)[0] != key[0] && tr_text(key)[0] != key[0]);
        assert(en_text(key) != key && tr_text(key) != key);
    } else if key == "loc_user"@ {
        reveal_strlit("loc_user");
        reveal_strlit("User Local");
        reveal_strlit("Kullanıcı Özel");
        assert(en_text(key)[0] != key[0] && tr_text(key)[0] != key[0]);
        assert(en_text(key) != key && tr_text(key) != key);
    } else if key == "loc_system"@ {
        reveal_strlit("loc_system");
        reveal_strlit("System Wide");
        reveal_strlit("Sistem Geneli");
        assert(en_text(key)[0] != key[0] && tr_text(key)[0] != key[0]);
        assert(en_text(key) != key && tr_text(key) != key);
    } else if key == "conn_title"@ {
        reveal_strlit("conn_title");
        reveal_strlit("Active Network Connections Map");
        reveal_strlit("Aktif Ağ Bağlantıları Haritası");
        assert(en_text(key)[0] != key[0] && tr_text(key)[0] != key[0]);
        assert(en_text(key) != key && tr_text(key) != key);
    } else if key == "conn_subtitle"@ {
        reveal_strlit("conn_subtitle");
        reveal_strlit("Real-time TCP & UDP socket mapping to local process owners.");
        reveal_strlit("TCP ve UDP soketlerinin anlık süreç sahipleriyle haritalandırılması.");
        assert(en_text(key)[0] != key[0] && tr_text(key)[0] != key[0]);
        assert(en_text(key) != key && tr_text(key) != key);
    } else if key == "conn_hdr_proto"@ {
        reveal_strlit("conn_hdr_proto");
        reveal_strlit("Protocol");
        reveal_strlit("Protokol");
        assert(en_text(key)[0] != key[0] && tr_text(key)[0] != key[0]);
        assert(en_text(key) != key && tr_text(key) != key);
    } else if key == "conn_hdr_local"@ {
        reveal_strlit("conn_hdr_local");
        reveal_strlit("Local Endpoint");
        reveal_strlit("Yerel Adres");
        assert(en_text(key)[0] != key[0] && tr_text(key)[0] != key[0]);
        assert(en_text(key) != key && tr_text(key) != key);
    } else if key == "conn_hdr_remote"@ {
        reveal_strlit("conn_hdr_remote");
        reveal_strlit("Remote Endpoint");
        reveal_strlit("Uzak Adres");
        assert(en_text(key)[0] != key[0] && tr_text(key)[0] != key[0]);
        assert(en_text(key) != key && tr_text(key) != key);
    } else if key == "conn_hdr_state"@ {
        reveal_strlit("conn_hdr_state");
        reveal_strlit("State");
        reveal_strlit("Durum");
        assert(en_text(key)[0] != key[0] && tr_text(key)[0] != key[0]);
        assert(en_text(key) != key && tr_text(key) != key);
    } else if key == "conn_hdr_owner"@ {
        reveal_strlit("conn_hdr_owner");
        reveal_strlit("Process Owner");
        reveal_strlit("Süreç Sahibi");
        assert(en_text(key)[0] != key[0] && tr_text(key)[0] != key[0]);
        assert(en_text(key) != key && tr_text(key) != key);
    } else if key == "lock_title"@ {
        reveal_strlit("lock_title");
        reveal_strlit("File Open & Lock Tracker");
        reveal_strlit("Dosya Kilidi ve Açık Dosya İzleyici");
        assert(en_text(key)[0] != key[0] && tr_text(key)[0] != key[0]);
        assert(en_text(key) != key && tr_text(key) != key);
    } else if key == "lock_subtitle"@ {
        reveal_strlit("lock_subtitle");
        reveal_strlit("Search open file descriptors to find which active processes are holding handles on specified paths.");
        reveal_strlit("Belirli yollarda kilit veya açık tanıtıcı (handle) tutan süreçleri anında bulun.");
        assert(en_text(key)[0] != key[0] && tr_text(key)[0] != key[0]);
        assert(en_text(key) != key && tr_text(key) != key);
    } else if key == "lock_search_hint"@ {
        reveal_strlit("lock_search_hint");
        reveal_strlit("Enter absolute file/directory path...");
        reveal_strlit("Mutlak dosya veya klasör yolu girin...");
        assert(en_text(key)[0] != key[0] && tr_text(key)[0] != key[0]);
        assert(en_text(key) != key && tr_text(key) != key);
    } else if key == "lock_btn_scan"@ {
        reveal_strlit("lock_btn_scan");
        reveal_strlit("Scan Path Handle");
        reveal_strlit("Yolu Tara");
        assert(en_text(key)[0] != key[0] && tr_text(key)[0] != key[0]);
        assert(en_text(key) != key && tr_text(key) != key);
    } else if key == "lock_no_matches"@ {
        reveal_strlit("lock_no_matches");
        reveal_strlit("No processes holding handles on this path");
        reveal_strlit("Bu yol üzerinde açık kilit tutan süreç bulunamadı");
        assert(en_text(key)[0] != key[0] && tr_text(key)[0] != key[0]);
        assert(en_text(key) != key && tr_text(key) != key);
    } else if key == "lock_hdr_pid"@ {
        reveal_strlit("lock_hdr_pid");
        reveal_strlit("PID");
        reveal_strlit("PID");
        assert(en_text(key)[0] != key[0] && tr_text(key)[0] != key[0]);
        assert(en_text(key) != key && tr_text(key) != key);
    } else if key == "lock_hdr_name"@ {
        reveal_strlit("lock_hdr_name");
        reveal_strlit("Process Name");
        reveal_strlit("Süreç İsim");
        assert(en_text(key)[0] != key[0] && tr_text(key)[0] != key[0]);
        assert(en_text(key) != key && tr_text(key) != key);
    } else if key == "lock_hdr_fd"@ {
        reveal_strlit("lock_hdr_fd");
        reveal_strlit("Descriptor (FD)");
        reveal_strlit("Tanıtıcı (FD)");
        assert(en_text(key)[0] != key[0] && tr_text(key)[0] != key[0]);
        assert(en_text(key) != key && tr_text(key) != key);
    } else if key == "lock_hdr_mode"@ {
        reveal_strlit("lock_hdr_mode");
        reveal_strlit("Access Mode");
        reveal_strlit("Erişim Modu");
        assert(en_text(key)[0] != key[0] && tr_text(key)[0] != key[0]);
        assert(en_text(key) != key && tr_text(key) != key);
    } else if key == "lock_hdr_path"@ {
        reveal_strlit("lock_hdr_path");
        reveal_strlit("File Path");
        reveal_strlit("Dosya Yolu");
        assert(en_text(key)[0] != key[0] && tr_text(key)[0] != key[0]);
        assert(en_text(key) != key && tr_text(key) != key);
    } else if key == "lock_hdr_action"@ {
        reveal_strlit("lock_hdr_action");
        reveal_strlit("Action");
        reveal_strlit("İşlem");
        assert(en_text(key)[0] != key[0] && tr_text(key)[0] != key[0]);
        assert(en_text(key) != key && tr_text(key) != key);
    } else if key == "mode_read"@ {
        reveal_strlit("mode_read");
        reveal_strlit("Read");
        reveal_strlit("Oku");
        assert(en_text(key)[0] != key[0] && tr_text(key)[0] != key[0]);
        assert(en_text(key) != key && tr_text(key) != key);
    } else if key == "mode_write"@ {
        reveal_strlit("mode_write");
        reveal_strlit("Write");
        reveal_strlit("Yaz");
        assert(en_text(key)[0] != key[0] && tr_text(key)[0] != key[0]);
        assert(en_text(key) != key && tr_text(key) != key);
    } else if key == "mode_readwrite"@ {
        reveal_strlit("mode_readwrite");
        reveal_strlit("ReadWrite");
        reveal_strlit("OkuYaz");
        assert(en_text(key)[0] != key[0] && tr_text(key)[0] != key[0]);
        assert(en_text(key) != key && tr_text(key) != key);
    } else if key == "btn_terminate"@ {
        reveal_strlit("btn_terminate");
        reveal_strlit("Terminate");
        reveal_strlit("Görevi Sonlandır");
        assert(en_text(key)[0] != key[0] && tr_text(key)[0] != key[0]);
        assert(en_text(key) != key && tr_text(key) != key);
    }
}

/// Text of `key` in `lang`.
pub open spec fn tr_spec(key: Seq<char>, lang: Language) -> Seq<char> {
    match lang {
        Language::Turkish => tr_text(key),
        Language::English => en_text(key),
    }
}

/// Translates a translation key into the selected language.
pub fn tr(key: &'static str, lang: Language) -> (r: &'static str)
    ensures
        r@ == tr_spec(key@, lang),
{
    match lang {
        Language::Turkish => translate_tr(key),
        Language::English => translate_en(key),
    }
}

} // verus!
