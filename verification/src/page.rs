//! The page that a browser shows: one row for each share.

use crate::shares::{size_text, ShareKind, SharedItem, SharedItemView};
use crate::text::{decimal, decimal_text, to_chars, views};
use vstd::prelude::*;

verus! {

// ---------------------------------------------------------------------------
// Escaping
// ---------------------------------------------------------------------------

/// How a character is written in HTML.
pub open spec fn entity(c: char) -> Seq<char> {
    if c == '&' {
        "&amp;"@
    } else if c == '<' {
        "&lt;"@
    } else if c == '>' {
        "&gt;"@
    } else if c == '"' {
        "&quot;"@
    } else {
        seq![c]
    }
}

/// How a text is written in HTML.
pub open spec fn escaped(s: Seq<char>) -> Seq<char>
    decreases s.len(),
{
    if s.len() == 0 {
        Seq::empty()
    } else {
        escaped(s.drop_last()) + entity(s.last())
    }
}

/// How a text is written in HTML.
pub fn html_escape(s: &str) -> (r: String)
    ensures
        r@ == escaped(s@),
{
    let chars = to_chars(s);
    let mut out = String::new();
    let mut i: usize = 0;
    while i < chars.len()
        invariant
            i <= chars@.len(),
            chars@ == s@,
            out@ == escaped(s@.take(i as int)),
        decreases chars@.len() - i,
    {
        let c = chars[i];
        let ghost before = out@;
        if c == '&' {
            out.append("&amp;");
        } else if c == '<' {
            out.append("&lt;");
        } else if c == '>' {
            out.append("&gt;");
        } else if c == '"' {
            out.append("&quot;");
        } else {
            out.push(c);
        }
        i += 1;
        proof {
            assert(s@.take(i as int).drop_last() =~= s@.take(i - 1));
            assert(out@ =~= before + entity(c));
        }
    }
    assert(s@.take(s@.len() as int) =~= s@);
    out
}

// ---------------------------------------------------------------------------
// The parts of the page
// ---------------------------------------------------------------------------

/// The start of the buttons for a folder.
pub const BROWSE_HEAD: &'static str = r#"<button onclick="toggleBrowse('"#;

/// Between the two buttons for a folder.
pub const BROWSE_MIDDLE: &'static str = r#"', this)" style="background:none;border:1px solid #d29922;color:#d29922;border-radius:4px;padding:2px 8px;cursor:pointer;font-family:monospace;font-size:0.85em;margin-right:4px">&#x1F50D; Browse</button><button onclick="downloadFolder('"#;

/// Between the id and the name of a folder.
pub const BROWSE_NAME: &'static str = "', '";

/// The end of the buttons for a folder.
pub const BROWSE_TAIL: &'static str = r#"', this)" style="background:none;border:1px solid #58a6ff;color:#58a6ff;border-radius:4px;padding:2px 8px;cursor:pointer;font-family:monospace;font-size:0.85em">&#x2B07; All files</button>"#;

/// The start of the link to a file.
pub const LINK_HEAD: &'static str = r#"<a href="/download/"#;

/// The end of the link to a file.
pub const LINK_TAIL: &'static str = r#"" download>Download</a>"#;

/// The start of the hidden row for the files of a folder.
pub const CONTENTS_HEAD: &'static str = r#"<tr id="browse-row-"#;

/// The middle of the hidden row for the files of a folder.
pub const CONTENTS_MIDDLE: &'static str = r#"" style="display:none"><td colspan="5" style="background:#0d1117;padding:0"><div id="browse-body-"#;

/// The end of the hidden row for the files of a folder.
pub const CONTENTS_TAIL: &'static str = r#"" style="padding:8px 16px"></div></td></tr>"#;

/// The start of a row.
pub const ROW_HEAD: &'static str = r#"<tr>
                <td>"#;

/// Between two cells of a row.
pub const CELL: &'static str = r#"</td>
                <td>"#;

/// Before the id in the button that deletes a share.
pub const DELETE_HEAD: &'static str = r#"</td>
                <td><button onclick="deleteShare('"#;

/// The end of a row.
pub const ROW_TAIL: &'static str = r#"', this)" style="background:none;border:1px solid #f85149;color:#f85149;border-radius:4px;padding:2px 8px;cursor:pointer;font-family:monospace;font-size:0.85em">&#x2715; Delete</button></td>
               </tr>"#;

/// The page before its title.
pub const PAGE_HEAD: &'static str = r#"<!DOCTYPE html>
<html>
<head>
  <title>"#;

/// The page between its title and its heading.
pub const PAGE_STYLE: &'static str = r#" — fileshare</title>
  <style>
    *, *::before, *::after { box-sizing: border-box; }
    body { font-family: monospace; max-width: 860px; margin: 40px auto; padding: 0 20px; background: #0d1117; color: #c9d1d9; }
    h1 { color: #58a6ff; margin-bottom: 4px; }
    table { width: 100%; border-collapse: collapse; margin-top: 16px; }
    th { text-align: left; border-bottom: 1px solid #30363d; padding: 8px; color: #8b949e; }
    td { padding: 8px; border-bottom: 1px solid #21262d; }
    a { color: #58a6ff; text-decoration: none; }
    a:hover { text-decoration: underline; }
    #status { font-size: 0.75em; color: #8b949e; float: right; margin-top: 8px; }
    #status.ok::before { content: "● "; color: #3fb950; }
    #status.err::before { content: "● "; color: #f85149; }

    /* Upload zone */
    #upload-zone {
      border: 2px dashed #30363d;
      border-radius: 8px;
      padding: 28px 20px;
      text-align: center;
      color: #8b949e;
      cursor: pointer;
      transition: border-color 0.15s, background 0.15s;
      margin-bottom: 4px;
      position: relative;
    }
    #upload-zone.drag-over {
      border-color: #58a6ff;
      background: rgba(88,166,255,0.06);
      color: #c9d1d9;
    }
    #upload-zone input[type=file] {
      position: absolute; inset: 0; opacity: 0; cursor: pointer; width: 100%; height: 100%;
    }
    #upload-btn {
      display: inline-block; margin-top: 10px; padding: 6px 18px;
      background: #21262d; color: #58a6ff; border: 1px solid #30363d;
      border-radius: 6px; cursor: pointer; font-family: monospace; font-size: 0.9em;
    }
    #upload-btn:hover { background: #30363d; }

    /* Upload progress list */
    #upload-list { margin: 8px 0 0; }
    .upl-item {
      display: flex; align-items: center; gap: 10px;
      padding: 6px 8px; background: #161b22; border-radius: 6px; margin-bottom: 4px;
      font-size: 0.85em;
    }
    .upl-name { flex: 1; white-space: nowrap; overflow: hidden; text-overflow: ellipsis; }
    .upl-bar-wrap { width: 120px; height: 6px; background: #21262d; border-radius: 3px; flex-shrink: 0; }
    .upl-bar { height: 100%; border-radius: 3px; background: #58a6ff; transition: width 0.1s; }
    .upl-status { flex-shrink: 0; min-width: 60px; text-align: right; color: #8b949e; }
    .upl-item.done .upl-bar { background: #3fb950; }
    .upl-item.err  .upl-bar { background: #f85149; }
  </style>
</head>
<body>
  <h1>📡 "#;

/// The page between its heading and its rows.
pub const PAGE_BODY: &'static str = r#"'s files <span id="status" class="ok">live</span></h1>
  <p style="color:#8b949e;margin:0 0 12px">Install <code>fileshare</code> for a better experience, or use the web UI below.</p>

  <div id="upload-zone">
    <input type="file" id="file-input" multiple>
    <div>⬆ Drop files here to upload, or</div>
    <label id="upload-btn" for="file-input">Choose files</label>
  </div>
  <div id="upload-list"></div>

  <table>
    <thead><tr><th>Name</th><th>Size</th><th>Downloads</th><th></th><th></th></tr></thead>
    <tbody id="shares-body">"#;

/// The page behind its rows.
pub const PAGE_TAIL: &'static str = r#"</tbody>
  </table>

  <script>
    const POLL_MS = 4000;
    const tbody   = document.getElementById('shares-body');
    const status  = document.getElementById('status');
    const zone    = document.getElementById('upload-zone');
    const input   = document.getElementById('file-input');
    const uplList = document.getElementById('upload-list');
    let lastJson  = '';

    // ── Polling ────────────────────────────────────────────────────────────
    function iconFor(kind) {
      return kind === 'folder' ? '📁' : kind === 'zipped_folder' ? '🗜️' : '📄';
    }
    function esc(s) {
      return String(s).replace(/&/g,'&amp;').replace(/</g,'&lt;').replace(/>/g,'&gt;').replace(/"/g,'&quot;');
    }
    function renderRows(items) {
      if (!items.length) return '<tr><td colspan="5" style="color:#8b949e">No files shared yet.</td></tr>';
      return items.map(it => `
        <tr>
          <td>${iconFor(it.kind)} ${esc(it.name)}</td>
          <td>${esc(it.size_human)}</td>
          <td>${it.download_count}</td>
          <td>${it.kind === 'folder'
              ? `<button onclick="toggleBrowse('${esc(it.id)}', this)" style="background:none;border:1px solid #d29922;color:#d29922;border-radius:4px;padding:2px 8px;cursor:pointer;font-family:monospace;font-size:0.85em;margin-right:4px">🔍 Browse</button><button onclick="downloadFolder('${esc(it.id)}', '${esc(it.name)}', this)" style="background:none;border:1px solid #58a6ff;color:#58a6ff;border-radius:4px;padding:2px 8px;cursor:pointer;font-family:monospace;font-size:0.85em">⬇ All files</button>`
              : `<a href="/download/${esc(it.id)}" download>Download</a>`}</td>
          <td><button onclick="deleteShare('${esc(it.id)}', this)" style="background:none;border:1px solid #f85149;color:#f85149;border-radius:4px;padding:2px 8px;cursor:pointer;font-family:monospace;font-size:0.85em">✕ Delete</button></td>
        </tr>
        ${it.kind === 'folder' ? `<tr id="browse-row-${esc(it.id)}" style="display:none"><td colspan="5" style="background:#0d1117;padding:0"><div id="browse-body-${esc(it.id)}" style="padding:8px 16px"></div></td></tr>` : ''}`).join('');
    }
    function setStatus(ok, txt) { status.className = ok ? 'ok' : 'err'; status.textContent = txt; }

    function fmtSize(bytes) {
      const units = ['B','KB','MB','GB','TB'];
      let i = 0, n = bytes;
      while (n >= 1024 && i < units.length - 1) { n /= 1024; i++; }
      return (i === 0 ? n : n.toFixed(1)) + ' ' + units[i];
    }

    // Browsing state survives the 4s poll re-render so an open folder
    // doesn't snap shut while the user is looking at it.
    const openFolders = new Set();

    async function toggleBrowse(id, btn) {
      const row = document.getElementById('browse-row-' + id);
      const body = document.getElementById('browse-body-' + id);
      if (!row) return;
      const isOpen = row.style.display !== 'none';
      if (isOpen) {
        row.style.display = 'none';
        openFolders.delete(id);
        return;
      }
      openFolders.add(id);
      row.style.display = '';
      body.innerHTML = '<span style="color:#8b949e">Loading…</span>';
      await loadBrowseBody(id, body);
    }

    async function loadBrowseBody(id, body) {
      try {
        const r = await fetch('/shares/' + id + '/manifest');
        if (!r.ok) throw new Error('HTTP ' + r.status);
        const manifest = await r.json();
        const files = manifest.files || [];
        if (!files.length) {
          body.innerHTML = '<span style="color:#8b949e">This folder has no files.</span>';
          return;
        }
        body.innerHTML = `<table style="width:100%;margin:0"><tbody>` + files.map(f => `
          <tr>
            <td style="border:none;padding:2px 8px 2px 0;font-size:0.9em">📄 ${esc(f.path)}</td>
            <td style="border:none;padding:2px 8px;font-size:0.9em;color:#8b949e;white-space:nowrap">${fmtSize(f.size)}</td>
            <td style="border:none;padding:2px 0;white-space:nowrap">
              <a href="/download/${esc(id)}/file?path=${encodeURIComponent(f.path)}" download style="font-size:0.9em">Download</a>
            </td>
          </tr>`).join('') + `</tbody></table>`;
      } catch (e) {
        body.innerHTML = '<span style="color:#f85149">Failed to load folder contents: ' + esc(e.message) + '</span>';
      }
    }

    async function deleteShare(id, btn) {
      if (!confirm('Remove this share? The file on disk is NOT deleted.')) return;
      btn.disabled = true;
      btn.textContent = '…';
      try {
        const r = await fetch('/shares/' + id, { method: 'DELETE' });
        const d = await r.json();
        if (d.ok) { poll(); } else { btn.textContent = '✕'; btn.disabled = false; alert(d.error || 'Delete failed'); }
      } catch { btn.textContent = '✕'; btn.disabled = false; }
    }

    // Raw folders are never zipped, so there's no single file to download.
    // Fetch the manifest, then download every file individually (one browser
    // download per file, landing flat in the user's Downloads folder — the
    // browser sandbox doesn't let a webpage create a real subfolder there).
    async function downloadFolder(id, name, btn) {
      const origLabel = btn.textContent;
      btn.disabled = true;
      try {
        const r = await fetch('/shares/' + id + '/manifest');
        if (!r.ok) throw new Error('HTTP ' + r.status);
        const manifest = await r.json();
        const files = manifest.files || [];
        if (!files.length) { alert('This folder has no files.'); return; }
        for (let i = 0; i < files.length; i++) {
          btn.textContent = `⬇ ${i + 1}/${files.length}…`;
          const url = '/download/' + id + '/file?path=' + encodeURIComponent(files[i].path);
          const a = document.createElement('a');
          a.href = url;
          a.download = files[i].path.split('/').pop();
          document.body.appendChild(a);
          a.click();
          a.remove();
          // Small gap between triggers so the browser doesn't drop rapid-fire
          // downloads or throw up a "multiple downloads" blocker dialog.
          await new Promise(res => setTimeout(res, 400));
        }
        btn.textContent = `✓ ${files.length} files`;
      } catch (e) {
        btn.textContent = '✕ failed';
        alert('Folder download failed: ' + e.message);
      } finally {
        setTimeout(() => { btn.textContent = origLabel; btn.disabled = false; }, 3000);
      }
    }

    async function poll() {
      if (document.hidden) return;
      try {
        const r = await fetch('/shares');
        if (!r.ok) throw new Error('HTTP ' + r.status);
        const d = await r.json();
        const j = JSON.stringify(d.items);
        if (j !== lastJson) {
          lastJson = j;
          tbody.innerHTML = renderRows(d.items);
          // Re-open any folders the user had expanded before this refresh.
          for (const id of openFolders) {
            const row = document.getElementById('browse-row-' + id);
            const body = document.getElementById('browse-body-' + id);
            if (row && body) {
              row.style.display = '';
              loadBrowseBody(id, body);
            }
          }
        }
        setStatus(true, 'live · ' + new Date().toLocaleTimeString());
      } catch { setStatus(false, 'offline'); }
    }
    document.addEventListener('visibilitychange', () => { if (!document.hidden) poll(); });
    poll();
    setInterval(poll, POLL_MS);

    // ── Drag-over styling ──────────────────────────────────────────────────
    zone.addEventListener('dragover',  e => { e.preventDefault(); zone.classList.add('drag-over'); });
    zone.addEventListener('dragleave', () => zone.classList.remove('drag-over'));
    zone.addEventListener('drop', e => {
      e.preventDefault();
      zone.classList.remove('drag-over');
      uploadFiles([...e.dataTransfer.files]);
    });
    input.addEventListener('change', () => { uploadFiles([...input.files]); input.value = ''; });

    // ── Upload logic ───────────────────────────────────────────────────────
    function fmtBytes(b) {
      if (b >= 1e9) return (b/1e9).toFixed(1) + ' GB';
      if (b >= 1e6) return (b/1e6).toFixed(1) + ' MB';
      if (b >= 1e3) return (b/1e3).toFixed(1) + ' KB';
      return b + ' B';
    }

    function makeUplItem(file) {
      const el = document.createElement('div');
      el.className = 'upl-item';
      el.innerHTML = `
        <span class="upl-name">${esc(file.name)}</span>
        <div class="upl-bar-wrap"><div class="upl-bar" style="width:0%"></div></div>
        <span class="upl-status">0%</span>`;
      uplList.prepend(el);
      return {
        bar:    el.querySelector('.upl-bar'),
        lbl:    el.querySelector('.upl-status'),
        finish: (ok, msg) => {
          el.classList.add(ok ? 'done' : 'err');
          el.querySelector('.upl-bar').style.width = '100%';
          el.querySelector('.upl-status').textContent = msg;
          setTimeout(() => el.remove(), 4000);
        }
      };
    }

    function uploadFiles(files) {
      files.forEach(file => {
        const ui  = makeUplItem(file);
        const fd  = new FormData();
        fd.append('file', file, file.name);
        const xhr = new XMLHttpRequest();

        xhr.upload.onprogress = e => {
          if (!e.lengthComputable) return;
          const pct = Math.round(e.loaded / e.total * 100);
          ui.bar.style.width = pct + '%';
          ui.lbl.textContent = pct + '%';
        };

        xhr.onload = () => {
          try {
            const r = JSON.parse(xhr.responseText);
            if (r.ok) {
              ui.finish(true, r.size_human || '✓');
              poll(); // refresh table immediately
            } else {
              ui.finish(false, r.error || 'error');
            }
          } catch { ui.finish(false, 'error'); }
        };

        xhr.onerror = () => ui.finish(false, 'failed');
        xhr.open('POST', '/upload');
        xhr.send(fd);
      });
    }
  </script>
</body>
</html>"#;

// ---------------------------------------------------------------------------
// Rows
// ---------------------------------------------------------------------------

/// The icon of a kind of share.
pub open spec fn icon_text(kind: ShareKind) -> Seq<char> {
    match kind {
        ShareKind::File => "📄"@,
        ShareKind::Folder => "📁"@,
        ShareKind::ZippedFolder => "🗜️"@,
    }
}

/// The cell from which a share is downloaded: a link, or for a folder the
/// buttons that show and download its files.
pub open spec fn download_cell(item: SharedItemView) -> Seq<char> {
    if item.kind == ShareKind::Folder {
        BROWSE_HEAD@ + escaped(item.id) + BROWSE_MIDDLE@ + escaped(item.id) + BROWSE_NAME@
            + escaped(item.name) + BROWSE_TAIL@
    } else {
        LINK_HEAD@ + escaped(item.id) + LINK_TAIL@
    }
}

/// The row below a folder in which its files are shown.
pub open spec fn contents_row(item: SharedItemView) -> Seq<char> {
    if item.kind == ShareKind::Folder {
        CONTENTS_HEAD@ + escaped(item.id) + CONTENTS_MIDDLE@ + escaped(item.id) + CONTENTS_TAIL@
    } else {
        Seq::empty()
    }
}

/// The row of a share.
pub open spec fn row_text(item: SharedItemView) -> Seq<char> {
    ROW_HEAD@ + icon_text(item.kind) + " "@ + escaped(item.name) + CELL@ + size_text(
        item.size as nat,
    ) + CELL@ + decimal_text(item.download_count as nat) + CELL@ + download_cell(item)
        + DELETE_HEAD@ + escaped(item.id) + ROW_TAIL@ + contents_row(item)
}

/// The rows of the shares, in order.
pub open spec fn rows_text(items: Seq<SharedItemView>) -> Seq<char>
    decreases items.len(),
{
    if items.len() == 0 {
        Seq::empty()
    } else {
        rows_text(items.drop_last()) + row_text(items.last())
    }
}

/// The page of a host.
pub open spec fn page_text(username: Seq<char>, items: Seq<SharedItemView>) -> Seq<char> {
    PAGE_HEAD@ + escaped(username) + PAGE_STYLE@ + escaped(username) + PAGE_BODY@ + rows_text(
        items,
    ) + PAGE_TAIL@
}

fn icon(kind: &ShareKind) -> (r: &'static str)
    ensures
        r@ == icon_text(*kind),
{
    match kind {
        ShareKind::File => "📄",
        ShareKind::Folder => "📁",
        ShareKind::ZippedFolder => "🗜️",
    }
}

fn render_download_cell(item: &SharedItem) -> (r: String)
    ensures
        r@ == download_cell(item@),
{
    let id = html_escape(item.id.as_str());
    if matches!(item.kind, ShareKind::Folder) {
        let mut out = BROWSE_HEAD.to_owned();
        out.append(id.as_str());
        out.append(BROWSE_MIDDLE);
        out.append(id.as_str());
        out.append(BROWSE_NAME);
        out.append(html_escape(item.name.as_str()).as_str());
        out.append(BROWSE_TAIL);
        out
    } else {
        let mut out = LINK_HEAD.to_owned();
        out.append(id.as_str());
        out.append(LINK_TAIL);
        out
    }
}

fn render_contents_row(item: &SharedItem) -> (r: String)
    ensures
        r@ == contents_row(item@),
{
    if matches!(item.kind, ShareKind::Folder) {
        let id = html_escape(item.id.as_str());
        let mut out = CONTENTS_HEAD.to_owned();
        out.append(id.as_str());
        out.append(CONTENTS_MIDDLE);
        out.append(id.as_str());
        out.append(CONTENTS_TAIL);
        out
    } else {
        String::new()
    }
}

/// The row of a share.
pub fn render_row(item: &SharedItem) -> (r: String)
    ensures
        r@ == row_text(item@),
{
    let mut out = ROW_HEAD.to_owned();
    out.append(icon(&item.kind));
    out.append(" ");
    out.append(html_escape(item.name.as_str()).as_str());
    out.append(CELL);
    out.append(item.size_human().as_str());
    out.append(CELL);
    out.append(decimal(item.download_count as u64).as_str());
    out.append(CELL);
    out.append(render_download_cell(item).as_str());
    out.append(DELETE_HEAD);
    out.append(html_escape(item.id.as_str()).as_str());
    out.append(ROW_TAIL);
    out.append(render_contents_row(item).as_str());
    out
}

/// The page of a host with these shares.
pub fn serve_browser_ui(username: &str, items: &Vec<SharedItem>) -> (r: String)
    ensures
        r@ == page_text(username@, views(items@)),
{
    let mut rows = String::new();
    let mut i: usize = 0;
    while i < items.len()
        invariant
            i <= items@.len(),
            rows@ == rows_text(views(items@).take(i as int)),
        decreases items@.len() - i,
    {
        let row = render_row(&items[i]);
        rows.append(row.as_str());
        i += 1;
        assert(views(items@).take(i as int).drop_last() =~= views(items@).take(i - 1));
    }
    assert(views(items@).take(items@.len() as int) =~= views(items@));
    let name = html_escape(username);
    let mut out = PAGE_HEAD.to_owned();
    out.append(name.as_str());
    out.append(PAGE_STYLE);
    out.append(name.as_str());
    out.append(PAGE_BODY);
    out.append(rows.as_str());
    out.append(PAGE_TAIL);
    out
}

// ---------------------------------------------------------------------------
// Laws
// ---------------------------------------------------------------------------

/// A text that is written in HTML opens and closes no tag and ends no
/// attribute.
pub proof fn law_escaped_text_is_inert(s: Seq<char>)
    ensures
        forall|i: int|
            0 <= i < escaped(s).len() ==> (#[trigger] escaped(s)[i]) != '<' && escaped(s)[i] != '>'
                && escaped(s)[i] != '"',
    decreases s.len(),
{
    reveal_strlit("&amp;");
    reveal_strlit("&lt;");
    reveal_strlit("&gt;");
    reveal_strlit("&quot;");
    if s.len() > 0 {
        let t = escaped(s.drop_last());
        let e = entity(s.last());
        law_escaped_text_is_inert(s.drop_last());
        assert forall|i: int| 0 <= i < (t + e).len() implies (#[trigger] (t + e)[i]) != '<' && (t
            + e)[i] != '>' && (t + e)[i] != '"' by {
            if i >= t.len() {
                assert((t + e)[i] == e[i - t.len()]);
            } else {
                assert((t + e)[i] == t[i]);
            }
        }
    }
}

proof fn lemma_escaped_front(s: Seq<char>)
    requires
        s.len() > 0,
    ensures
        escaped(s) == entity(s[0]) + escaped(s.skip(1)),
    decreases s.len(),
{
    if s.len() == 1 {
        assert(s.drop_last() =~= Seq::<char>::empty());
        assert(s.skip(1) =~= Seq::<char>::empty());
        assert(escaped(s) =~= entity(s[0]) + escaped(s.skip(1)));
    } else {
        lemma_escaped_front(s.drop_last());
        assert(s.drop_last().skip(1) =~= s.skip(1).drop_last());
        assert(escaped(s) =~= entity(s[0]) + escaped(s.skip(1)));
    }
}

/// Nothing of a text is lost when it is written in HTML: different texts are
/// written differently.
pub proof fn law_escaping_loses_nothing(a: Seq<char>, b: Seq<char>)
    requires
        escaped(a) == escaped(b),
    ensures
        a == b,
    decreases a.len() + b.len(),
{
    reveal_strlit("&amp;");
    reveal_strlit("&lt;");
    reveal_strlit("&gt;");
    reveal_strlit("&quot;");
    if a.len() == 0 && b.len() == 0 {
        assert(a =~= b);
    } else if a.len() == 0 {
        lemma_escaped_front(b);
        assert(escaped(b).len() > 0);
    } else if b.len() == 0 {
        lemma_escaped_front(a);
        assert(escaped(a).len() > 0);
    } else {
        lemma_escaped_front(a);
        lemma_escaped_front(b);
        let x = entity(a[0]);
        let y = entity(b[0]);
        let u = escaped(a.skip(1));
        let v = escaped(b.skip(1));
        assert((x + u)[0] == x[0]);
        assert((y + v)[0] == y[0]);
        if x.len() > 1 && y.len() > 1 {
            assert((x + u)[1] == x[1]);
            assert((y + v)[1] == y[1]);
        }
        assert(a[0] == b[0]);
        assert(u =~= (x + u).skip(x.len() as int));
        assert(v =~= (y + v).skip(x.len() as int));
        law_escaping_loses_nothing(a.skip(1), b.skip(1));
        assert(a =~= seq![a[0]] + a.skip(1));
        assert(b =~= seq![b[0]] + b.skip(1));
    }
}

/// Whether a text holds another.
pub open spec fn holds(s: Seq<char>, part: Seq<char>) -> bool {
    exists|i: int| 0 <= i && i + part.len() <= s.len() && #[trigger] s.subrange(i, i + part.len())
        == part
}

proof fn lemma_holds(a: Seq<char>, part: Seq<char>, b: Seq<char>)
    ensures
        holds(a + part + b, part),
{
    let i = a.len() as int;
    assert((a + part + b).subrange(i, i + part.len()) =~= part);
}

proof fn lemma_ends(a: Seq<char>, part: Seq<char>)
    ensures
        holds(a + part, part),
{
    let i = a.len() as int;
    assert((a + part).subrange(i, i + part.len()) =~= part);
}

proof fn lemma_more(s: Seq<char>, b: Seq<char>, part: Seq<char>)
    requires
        holds(s, part),
    ensures
        holds(s + b, part),
{
    let i = choose|i: int|
        0 <= i && i + part.len() <= s.len() && #[trigger] s.subrange(i, i + part.len()) == part;
    assert((s + b).subrange(i, i + part.len()) =~= s.subrange(i, i + part.len()));
}

proof fn lemma_three(s: Seq<char>, a: Seq<char>, b: Seq<char>, c: Seq<char>)
    ensures
        s + a + b + c == s + (a + b + c),
{
    assert(s + a + b + c =~= s + (a + b + c));
}

/// Writing a text in HTML goes character by character: four characters are
/// written as their entities, and every other as itself.
pub proof fn law_escaping_goes_by_character(a: Seq<char>, b: Seq<char>, c: char)
    ensures
        escaped(a + b) == escaped(a) + escaped(b),
        escaped(seq!['&']) == "&amp;"@,
        escaped(seq!['<']) == "&lt;"@,
        escaped(seq!['>']) == "&gt;"@,
        escaped(seq!['"']) == "&quot;"@,
        c != '&' && c != '<' && c != '>' && c != '"' ==> escaped(seq![c]) == seq![c],
    decreases b.len(),
{
    if b.len() == 0 {
        assert(a + b =~= a);
        assert(escaped(a) + escaped(b) =~= escaped(a));
    } else {
        law_escaping_goes_by_character(a, b.drop_last(), c);
        assert((a + b).drop_last() =~= a + b.drop_last());
        assert((a + b).last() == b.last());
        assert(escaped(a + b) =~= escaped(a) + escaped(b));
    }
    lemma_escaped_one('&');
    lemma_escaped_one('<');
    lemma_escaped_one('>');
    lemma_escaped_one('"');
    lemma_escaped_one(c);
}

proof fn lemma_escaped_one(c: char)
    ensures
        escaped(seq![c]) == entity(c),
{
    let one = seq![c];
    assert(one.drop_last() =~= Seq::<char>::empty());
    assert(one.last() == c);
    assert(escaped(one.drop_last()) == Seq::<char>::empty());
    assert(Seq::<char>::empty() + entity(c) =~= entity(c));
}

/// The row of a share shows its icon and name, its size and how often it was
/// downloaded, and the button that deletes it by its id.
pub proof fn law_rows_show_the_share(item: SharedItemView)
    ensures
        holds(row_text(item), escaped(item.name)),
        holds(row_text(item), size_text(item.size as nat)),
        holds(row_text(item), decimal_text(item.download_count as nat)),
        holds(row_text(item), DELETE_HEAD@ + escaped(item.id) + ROW_TAIL@),
        item.kind == ShareKind::File ==> holds(row_text(item), "📄 "@ + escaped(item.name)),
        item.kind == ShareKind::Folder ==> holds(row_text(item), "📁 "@ + escaped(item.name)),
        item.kind == ShareKind::ZippedFolder ==> holds(row_text(item), "🗜️ "@ + escaped(item.name)),
{
    let name = escaped(item.name);
    let size = size_text(item.size as nat);
    let count = decimal_text(item.download_count as nat);
    let s0 = ROW_HEAD@ + icon_text(item.kind) + " "@;
    let s1 = s0 + name;
    let s2 = s1 + CELL@;
    let s3 = s2 + size;
    let s4 = s3 + CELL@;
    let s5 = s4 + count;
    let s6 = s5 + CELL@;
    let s7 = s6 + download_cell(item);
    let s8 = s7 + DELETE_HEAD@;
    let s9 = s8 + escaped(item.id);
    let s10 = s9 + ROW_TAIL@;
    assert(row_text(item) == s10 + contents_row(item));
    let shown = icon_text(item.kind) + " "@ + name;
    lemma_three(ROW_HEAD@, icon_text(item.kind), " "@, name);
    lemma_ends(ROW_HEAD@, shown);
    lemma_ends(s0, name);
    lemma_ends(s2, size);
    lemma_ends(s4, count);
    let delete = DELETE_HEAD@ + escaped(item.id) + ROW_TAIL@;
    lemma_three(s7, DELETE_HEAD@, escaped(item.id), ROW_TAIL@);
    lemma_ends(s7, delete);
    lemma_more(s10, contents_row(item), delete);
    lemma_after_count(s5, item, count);
    lemma_more(s3, CELL@, size);
    lemma_more(s4, count, size);
    lemma_after_count(s5, item, size);
    lemma_more(s1, CELL@, name);
    lemma_more(s2, size, name);
    lemma_more(s3, CELL@, name);
    lemma_more(s4, count, name);
    lemma_after_count(s5, item, name);
    lemma_more(s1, CELL@, shown);
    lemma_more(s2, size, shown);
    lemma_more(s3, CELL@, shown);
    lemma_more(s4, count, shown);
    lemma_after_count(s5, item, shown);
    lemma_icons();
}

proof fn lemma_icons()
    ensures
        "📄"@ + " "@ == "📄 "@,
        "📁"@ + " "@ == "📁 "@,
        "🗜️"@ + " "@ == "🗜️ "@,
{
    reveal_strlit("📄");
    reveal_strlit("📁");
    reveal_strlit("🗜️");
    reveal_strlit("📄 ");
    reveal_strlit("📁 ");
    reveal_strlit("🗜️ ");
    reveal_strlit(" ");
    assert("📄"@ + " "@ =~= "📄 "@);
    assert("📁"@ + " "@ =~= "📁 "@);
    assert("🗜️"@ + " "@ =~= "🗜️ "@);
}

/// What the start of a row holds, the row holds.
proof fn lemma_after_count(s: Seq<char>, item: SharedItemView, part: Seq<char>)
    requires
        holds(s, part),
    ensures
        holds(
            s + CELL@ + download_cell(item) + DELETE_HEAD@ + escaped(item.id) + ROW_TAIL@
                + contents_row(item),
            part,
        ),
{
    let a = s + CELL@;
    let b = a + download_cell(item);
    let c = b + DELETE_HEAD@;
    let d = c + escaped(item.id);
    let e = d + ROW_TAIL@;
    lemma_more(s, CELL@, part);
    lemma_more(a, download_cell(item), part);
    lemma_more(b, DELETE_HEAD@, part);
    lemma_more(c, escaped(item.id), part);
    lemma_more(d, ROW_TAIL@, part);
    lemma_more(e, contents_row(item), part);
}

/// A share that is no folder is downloaded from its link, and a folder is looked
/// into and downloaded by its buttons, which carry its id.
pub proof fn law_rows_lead_to_the_share(item: SharedItemView)
    ensures
        item.kind != ShareKind::Folder ==> holds(
            row_text(item),
            r#"<a href="/download/"#@ + escaped(item.id) + r#"" download>Download</a>"#@,
        ),
        item.kind == ShareKind::Folder ==> holds(
            row_text(item),
            r#"<button onclick="toggleBrowse('"#@ + escaped(item.id),
        ) && holds(row_text(item), escaped(item.id) + "', '"@ + escaped(item.name)),
{
    let row = row_text(item);
    let front = ROW_HEAD@ + icon_text(item.kind) + " "@ + escaped(item.name) + CELL@ + size_text(
        item.size as nat,
    ) + CELL@ + decimal_text(item.download_count as nat) + CELL@;
    let back = DELETE_HEAD@ + escaped(item.id) + ROW_TAIL@ + contents_row(item);
    let cell = download_cell(item);
    assert(row =~= front + cell + back);
    lemma_holds(front, cell, back);
    if item.kind == ShareKind::Folder {
        let id = escaped(item.id);
        let open = BROWSE_HEAD@ + id;
        let open_rest = BROWSE_MIDDLE@ + id + BROWSE_NAME@ + escaped(item.name) + BROWSE_TAIL@;
        assert(row =~= front + open + (open_rest + back));
        lemma_holds(front, open, open_rest + back);
        let all = id + BROWSE_NAME@ + escaped(item.name);
        let all_front = front + BROWSE_HEAD@ + id + BROWSE_MIDDLE@;
        assert(row =~= all_front + all + (BROWSE_TAIL@ + back));
        lemma_holds(all_front, all, BROWSE_TAIL@ + back);
    }
}

/// The page shows a row for every share, in order, and the name of the host in
/// its title and its heading.
pub proof fn law_pages_show_every_share(
    username: Seq<char>,
    items: Seq<SharedItemView>,
    i: int,
)
    requires
        0 <= i < items.len(),
    ensures
        rows_text(items) == rows_text(items.take(i)) + row_text(items[i]) + rows_text(
            items.skip(i + 1),
        ),
        holds(page_text(username, items), row_text(items[i])),
        holds(page_text(username, items), rows_text(items)),
        holds(page_text(username, items), PAGE_HEAD@ + escaped(username)),
        holds(page_text(username, items), PAGE_STYLE@ + escaped(username) + PAGE_BODY@),
{
    let rows = rows_text(items);
    let row = row_text(items[i]);
    lemma_rows_around(items, i);
    let name = escaped(username);
    let p1 = PAGE_HEAD@ + name;
    let p2 = p1 + PAGE_STYLE@;
    let p3 = p2 + name;
    let p4 = p3 + PAGE_BODY@;
    let p5 = p4 + rows;
    lemma_ends(p4, rows);
    lemma_more(p5, PAGE_TAIL@, rows);
    let before = rows_text(items.take(i));
    let behind = rows_text(items.skip(i + 1));
    lemma_three(p4, before, row, behind);
    lemma_ends(p4 + before, row);
    lemma_more(p4 + before + row, behind, row);
    lemma_more(p5, PAGE_TAIL@, row);
    lemma_ends(Seq::<char>::empty(), p1);
    assert(Seq::<char>::empty() + p1 =~= p1);
    lemma_more(p1, PAGE_STYLE@, p1);
    lemma_more(p2, name, p1);
    lemma_more(p3, PAGE_BODY@, p1);
    lemma_more(p4, rows, p1);
    lemma_more(p5, PAGE_TAIL@, p1);
    let heading = PAGE_STYLE@ + name + PAGE_BODY@;
    lemma_three(p1, PAGE_STYLE@, name, PAGE_BODY@);
    lemma_ends(p1, heading);
    lemma_more(p4, rows, heading);
    lemma_more(p5, PAGE_TAIL@, heading);
}

proof fn lemma_rows_around(items: Seq<SharedItemView>, i: int)
    requires
        0 <= i < items.len(),
    ensures
        rows_text(items) == rows_text(items.take(i)) + row_text(items[i]) + rows_text(
            items.skip(i + 1),
        ),
{
    let one = seq![items[i]];
    let front = items.take(i);
    let back = items.skip(i + 1);
    lemma_rows_joined(front, one);
    lemma_rows_joined(front + one, back);
    assert(front + one + back =~= items);
    assert(one.drop_last() =~= Seq::<SharedItemView>::empty());
    assert(one.last() == items[i]);
    assert(rows_text(one.drop_last()) == Seq::<char>::empty());
    assert(Seq::<char>::empty() + row_text(items[i]) =~= row_text(items[i]));
}

proof fn lemma_rows_joined(a: Seq<SharedItemView>, b: Seq<SharedItemView>)
    ensures
        rows_text(a + b) == rows_text(a) + rows_text(b),
    decreases b.len(),
{
    if b.len() == 0 {
        assert(a + b =~= a);
        assert(rows_text(a) + rows_text(b) =~= rows_text(a));
    } else {
        assert((a + b).drop_last() =~= a + b.drop_last());
        assert((a + b).last() == b.last());
        lemma_rows_joined(a, b.drop_last());
        assert(rows_text(a + b) =~= rows_text(a) + rows_text(b));
    }
}

}
