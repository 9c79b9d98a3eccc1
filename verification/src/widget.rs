//! The widget that is put into the page: a microphone button and the script behind it.

use vstd::prelude::*;

verus! {

/// The widget's markup and script.
pub const VOICE_WIDGET: &'static str = r#"<div id="ij-voice-widget" style="position:fixed;bottom:24px;right:24px;z-index:9999;display:flex;flex-direction:column;align-items:center;gap:8px;font-family:-apple-system,BlinkMacSystemFont,'Segoe UI',sans-serif">
<style>
  #ij-mic-btn { width:56px;height:56px;border-radius:50%;border:none;cursor:pointer;font-size:24px;
    background:#1a1a1a;color:#888;box-shadow:0 2px 12px rgba(0,0,0,0.3);
    transition:all 0.15s;display:flex;align-items:center;justify-content:center; }
  #ij-mic-btn:hover { background:#2a2a2a;color:#e0e0e0; }
  #ij-mic-btn.listening { background:#3b82f6;color:#fff;box-shadow:0 0 20px rgba(59,130,246,0.4); }
  #ij-mic-btn.thinking { background:#8b5cf6;color:#fff;animation:ij-pulse 0.8s infinite; }
  #ij-mic-btn.speaking { background:#22c55e;color:#fff;box-shadow:0 0 20px rgba(34,197,94,0.4); }
  @keyframes ij-pulse { 0%,100%{opacity:1} 50%{opacity:0.4} }
  #ij-status { font-size:11px;color:#666;text-transform:uppercase;letter-spacing:1px; }
  #ij-transcript { font-size:12px;color:#999;max-width:280px;text-align:center;overflow:hidden;
    text-overflow:ellipsis;white-space:nowrap;background:#111;padding:4px 12px;border-radius:8px; }
</style>
<button id="ij-mic-btn" onclick="ijToggle()">🎤</button>
<div id="ij-status">disconnected</div>
<div id="ij-transcript" style="display:none"></div>
</div>
<script>
let ijWs=null,ijMediaStream=null,ijAudioCtx=null,ijScriptNode=null,ijSourceNode=null;
let ijIsMuted=false,ijNextPlayTime=0,ijIsRecording=false;
const IJ_RATE=16000,IJ_PLAYBACK_RATE=24000;
function ijLog(m){let d=document.getElementById('ij-transcript');d.textContent=m;d.style.display=m?'block':'none'}
function ijSetState(s){
  let b=document.getElementById('ij-mic-btn'),st=document.getElementById('ij-status');
  b.className='';
  if(s==='idle'||s==='connected'){b.classList.add('connected');st.textContent='connected'}
  else if(s==='user'||s==='listening'){b.classList.add('listening');st.textContent='listening...'}
  else if(s==='checking'){b.classList.add('listening');st.textContent='checking...'}
  else if(s==='gating'||s==='go-on'){b.classList.add('listening');st.textContent='go on...'}
  else if(s==='model'||s==='speaking'){b.classList.add('speaking');st.textContent='speaking'}
  else if(s==='thinking'){b.classList.add('thinking');st.textContent='thinking...'}
  else{st.textContent=s||'disconnected'}
}
function ijPlayPcm(d){
  if(!ijAudioCtx)return;
  let f32=new Float32Array(d.length);
  for(let i=0;i<d.length;i++)f32[i]=d[i]/32768;
  let b=ijAudioCtx.createBuffer(1,f32.length,IJ_PLAYBACK_RATE);
  b.getChannelData(0).set(f32);
  let s=ijAudioCtx.createBufferSource();s.buffer=b;s.connect(ijAudioCtx.destination);
  let n=ijAudioCtx.currentTime;
  if(ijNextPlayTime<n)ijNextPlayTime=n+0.05;
  s.start(ijNextPlayTime);ijNextPlayTime+=b.duration;
}
function ijDownsample(e){
  if(!ijWs||ijWs.readyState!==WebSocket.OPEN)return;
  let d=e.inputBuffer.getChannelData(0),r=ijAudioCtx.sampleRate;
  if(r===IJ_RATE){let i16=new Int16Array(d.length);for(let i=0;i<d.length;i++)i16[i]=Math.max(-32768,Math.min(32767,Math.round(d[i]*32767)));ijWs.send(i16.buffer)}
  else{let ratio=r/IJ_RATE,outLen=Math.round(d.length/ratio),i16=new Int16Array(outLen);for(let i=0;i<outLen;i++){let si=Math.round(i*ratio),s=d[Math.min(si,d.length-1)];i16[i]=Math.max(-32768,Math.min(32767,Math.round(s*32767)))};ijWs.send(i16.buffer)}
}
function ijToggle(){
  let b=document.getElementById('ij-mic-btn');
  if(ijIsRecording){ijStopRecording();ijWs&&ijWs.close();ijIsRecording=false;b.classList.remove('listening');document.getElementById('ij-status').textContent='disconnected'}
  else{ijStart()}
}
function ijInjectText(text){
  let editor=document.querySelector('[data-component="prompt-input"]')||document.querySelector('[contenteditable="true"]')||document.querySelector('[role="textbox"]');
  if(!editor){ijLog('no editor');return}
  ijLog('inject:'+text.slice(0,40));
  editor.focus();
  // Select all existing content so insertText replaces it
  let sel=window.getSelection();
  let range=document.createRange();
  range.selectNodeContents(editor);
  sel.removeAllRanges();sel.addRange(range);
  // execCommand fires real beforeinput+input events SolidJS will react to
  let ok=document.execCommand('insertText',false,text);
  if(!ok){
    editor.textContent=text;
    editor.dispatchEvent(new InputEvent('input',{inputType:'insertText',data:text,bubbles:true,cancelable:true}));
  }
  // Click the real submit button — triggers handleSubmit via the form
  setTimeout(()=>{
    let btn=document.querySelector('[data-action="prompt-submit"]')||editor.closest('form')?.querySelector('button[type="submit"]');
    ijLog('submit:'+(btn?'ok':'none'));
    if(btn)btn.click();
  },50);
}
async function ijStart(){
  try{
    ijMediaStream=await navigator.mediaDevices.getUserMedia({audio:{channelCount:1,sampleRate:{ideal:IJ_RATE},echoCancellation:true,noiseSuppression:true}});
    let p=location.protocol==='https:'?'wss:':'ws:';
    let s=window.location.pathname.match(/\/session\/([^/]+)/);
    ijWs=new WebSocket(p+'//'+location.host+'/ws?session='+(s?s[1]:''));ijWs.binaryType='arraybuffer';
    ijWs.onopen=()=>{ijSetState('connected');ijStartRecording();ijIsRecording=true};
    ijWs.onmessage=(e)=>{
      if(e.data instanceof ArrayBuffer){ijPlayPcm(new Int16Array(e.data))}
      else{try{let m=JSON.parse(e.data);
        if(m.type==='state')ijSetState(m.state);
        else if(m.type==='submit'){ijInjectText(m.text);ijLog('')}
        else if(m.type==='log')ijLog(m.text)
      }catch(e){}}
    };
    ijWs.onclose=()=>{ijStopRecording();ijIsRecording=false;document.getElementById('ij-status').textContent='disconnected';ijWs=null};
  }catch(e){ijLog('mic error: '+e.message)}
}
function ijStartRecording(){
  if(!ijMediaStream||!ijWs||ijWs.readyState!==WebSocket.OPEN||ijSourceNode)return;
  ijAudioCtx=new(window.AudioContext||window.webkitAudioContext)();
  ijSourceNode=ijAudioCtx.createMediaStreamSource(ijMediaStream);
  ijScriptNode=ijAudioCtx.createScriptProcessor(4096,1,1);
  ijScriptNode.onaudioprocess=ijDownsample;
  ijSourceNode.connect(ijScriptNode);ijScriptNode.connect(ijAudioCtx.destination);
}
function ijStopRecording(){
  if(ijScriptNode){ijScriptNode.disconnect();ijScriptNode=null}
  if(ijSourceNode){ijSourceNode.disconnect();ijSourceNode=null}
  if(ijMediaStream){ijMediaStream.getTracks().forEach(t=>t.stop());ijMediaStream=null}
  if(ijAudioCtx){ijAudioCtx.close();ijAudioCtx=null}
}
</script>"#;

} // verus!
