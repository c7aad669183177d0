//! The page of the web admin.
use vstd::prelude::*;

verus! {

/// The page of the web admin.
pub const INDEX_HTML: &'static str = r#"<!doctype html>
<html lang="en">
<head>
  <meta charset="utf-8">
  <meta name="viewport" content="width=device-width,initial-scale=1">
  <title>KernelSU Web Admin</title>
  <style>
    :root{color-scheme:dark light;font-family:system-ui,Roboto,Arial,sans-serif}
    body{margin:0;background:#101418;color:#e8eef2}
    header{display:flex;gap:12px;align-items:center;padding:14px 18px;border-bottom:1px solid #2a343d;background:#151b21}
    h1{font-size:18px;margin:0}
    main{display:grid;grid-template-columns:220px 1fr;min-height:calc(100vh - 54px)}
    nav{border-right:1px solid #2a343d;padding:12px;background:#11171d}
    button,input{font:inherit}
    nav button{display:block;width:100%;margin:0 0 8px;padding:9px;border:1px solid #33414b;background:#18212a;color:#e8eef2;text-align:left;border-radius:6px}
    nav button.active{background:#245b7a;border-color:#3f9bcc}
    section{padding:18px;display:none}
    section.active{display:block}
    .row{display:flex;gap:10px;align-items:center;flex-wrap:wrap;margin:8px 0}
    .item{border:1px solid #2d3942;border-radius:8px;padding:12px;margin:10px 0;background:#151c23}
    .muted{color:#9fb0bc}
    .danger{background:#61252b}
    .ok{background:#1d5134}
    .toolbar{display:flex;gap:8px;align-items:center}
    input{padding:8px;border-radius:6px;border:1px solid #46545f;background:#0d1216;color:#e8eef2;min-width:260px}
    .small{font-size:12px}
    @media(max-width:720px){main{grid-template-columns:1fr}nav{border-right:0;border-bottom:1px solid #2a343d}.toolbar{flex-direction:column;align-items:stretch}input{min-width:0;width:100%}}
  </style>
</head>
<body>
  <header><h1>KernelSU Web Admin</h1><span id="authState" class="muted small"></span></header>
  <main>
    <nav>
      <button data-tab="status" class="active">Status</button>
      <button data-tab="su">Superuser</button>
      <button data-tab="features">Features</button>
      <button data-tab="modules">Modules</button>
    </nav>
    <div>
      <section id="status" class="active">
        <div class="toolbar"><input id="token" placeholder="Bearer token"><button id="saveToken">Save token</button></div>
        <div id="statusOut"></div>
      </section>
      <section id="su"><div id="suOut"></div></section>
      <section id="features"><div id="featuresOut"></div></section>
      <section id="modules"><div id="modulesOut"></div></section>
    </div>
  </main>
  <script>
    let token = localStorage.getItem('ksu.web.token') || '';
    const $ = (id) => document.getElementById(id);
    $('token').value = token;
    function setAuthState(){ $('authState').textContent = token ? 'token loaded' : 'token missing'; }
    setAuthState();
    document.querySelectorAll('nav button').forEach(btn => btn.onclick = () => {
      document.querySelectorAll('nav button,section').forEach(x => x.classList.remove('active'));
      btn.classList.add('active'); $(btn.dataset.tab).classList.add('active'); refresh();
    });
    $('saveToken').onclick = () => { token = $('token').value.trim(); localStorage.setItem('ksu.web.token', token); setAuthState(); refresh(); };
    async function api(path, opts={}){
      opts.headers = Object.assign({'Authorization':'Bearer '+token}, opts.headers || {});
      if (opts.body && !opts.headers['Content-Type']) opts.headers['Content-Type']='application/json';
      const res = await fetch(path, opts);
      const data = await res.json().catch(() => ({}));
      if (!res.ok) throw new Error(data.error || res.statusText);
      return data;
    }
    function esc(s){return String(s ?? '').replace(/[&<>"]/g,c=>({'&':'&amp;','<':'&lt;','>':'&gt;','"':'&quot;'}[c]));}
    async function loadStatus(){
      try { const s = await api('/api/v1/status'); $('statusOut').innerHTML = '<div class=item><pre>'+esc(JSON.stringify(s,null,2))+'</pre></div>'; }
      catch(e){ $('statusOut').innerHTML = '<div class=item>'+esc(e.message)+'</div>'; }
    }
    async function loadFeatures(){
      try {
        const data = await api('/api/v1/features');
        $('featuresOut').innerHTML = data.features.map(f => `<div class=item><b>${esc(f.name)}</b><div class=muted>${esc(f.description)}</div><div class=row><span>${f.supported ? (f.enabled ? 'enabled' : 'disabled') : 'unsupported'}</span><button onclick="setFeature('${f.name}',${f.enabled?0:1})">${f.enabled?'Disable':'Enable'}</button></div></div>`).join('');
      } catch(e){ $('featuresOut').innerHTML = '<div class=item>'+esc(e.message)+'</div>'; }
    }
    async function setFeature(name,value){ await api('/api/v1/features/'+name,{method:'PATCH',body:JSON.stringify({value})}); loadFeatures(); }
    async function loadModules(){
      try {
        const data = await api('/api/v1/modules');
        $('modulesOut').innerHTML = data.modules.map(m => `<div class=item><b>${esc(m.name || m.id)}</b><div class=muted>${esc(m.id)} ${esc(m.version || '')}</div><div>${esc(m.description || '')}</div><div class=row><button onclick="moduleAction('${m.id}','${m.enabled==='true'?'disable':'enable'}')">${m.enabled==='true'?'Disable':'Enable'}</button><button class=danger onclick="moduleAction('${m.id}','uninstall')">Uninstall</button></div></div>`).join('');
      } catch(e){ $('modulesOut').innerHTML = '<div class=item>'+esc(e.message)+'</div>'; }
    }
    async function moduleAction(id,action){ await api(`/api/v1/modules/${id}/${action}`,{method:'POST',body:'{}'}); loadModules(); }
    async function loadSu(){
      try {
        const data = await api('/api/v1/su/requests');
        $('suOut').innerHTML = data.requests.length ? data.requests.map(r => `<div class=item><b>${esc(r.packages[0] || r.comm || r.uid)}</b><div class=muted>uid ${r.uid} pid ${r.pid}</div><div>${esc(r.argv || r.path)}</div><div class=row><button class=ok onclick="decide(${r.request_id},true,false)">Allow once</button><button class=ok onclick="decide(${r.request_id},true,true)">Allow & remember</button><button class=danger onclick="decide(${r.request_id},false,false)">Deny</button></div></div>`).join('') : '<div class=item>No pending requests</div>';
      } catch(e){ $('suOut').innerHTML = '<div class=item>'+esc(e.message)+'</div>'; }
    }
    async function decide(id,allow,remember){ await api(`/api/v1/su/requests/${id}/decision`,{method:'POST',body:JSON.stringify({decision:allow?'allow':'deny',remember})}); loadSu(); }
    function active(){ return document.querySelector('section.active').id; }
    function refresh(){ const a=active(); if(a==='status')loadStatus(); if(a==='features')loadFeatures(); if(a==='modules')loadModules(); if(a==='su')loadSu(); }
    setInterval(()=>{ if(active()==='su') loadSu(); }, 1000);
    refresh();
  </script>
</body>
</html>
"#;

} // verus!
